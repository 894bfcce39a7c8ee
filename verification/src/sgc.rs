//! The session with the graphics controller: which resources it offers, which
//! of them are held, and which to ask for next.
//!
//! Asking is the caller's part. The session says what to ask for and is told
//! what came of it.

use vstd::prelude::*;

use crate::text::{append_decimal, decimal_text};

verus! {

/// An input device, counted among the devices of its class.
#[derive(Clone, Copy, PartialEq, Eq, Structural, Debug)]
pub enum InputResource {
    /// A mouse-like device.
    Mouse(u8),
    /// A keyboard-like device.
    Keyboard(u8),
    /// A touch device.
    Touch(u8),
}

/// A resource that the controller hands out.
#[derive(Clone, Copy, PartialEq, Eq, Structural, Debug)]
pub enum Resource {
    /// The framebuffer device.
    Fbdev,
    /// A display card; what is granted is a lease.
    Drm { card: u8 },
    /// An input device.
    Input(InputResource),
}

impl Resource {
    /// Whether this is an input device.
    pub fn is_input(&self) -> (b: bool)
        ensures
            b == (*self is Input),
    {
        matches!(self, Resource::Input(_))
    }
}

/// The card of the first display card in the list, if there is one.
pub open spec fn first_card(resources: Seq<Resource>) -> Option<u8>
    decreases resources.len(),
{
    if resources.len() == 0 {
        None
    } else {
        match resources[0] {
            Resource::Drm { card } => Some(card),
            _ => first_card(resources.skip(1)),
        }
    }
}

/// The input devices in the list, in its order.
pub open spec fn input_devices(resources: Seq<Resource>) -> Seq<Resource> {
    resources.filter(|r: Resource| r is Input)
}

/// The input devices in the list that are not among `held`, in its order.
pub open spec fn devices_to_ask_for(resources: Seq<Resource>, held: Seq<Resource>) -> Seq<Resource> {
    resources.filter(|r: Resource| r is Input && !held.contains(r))
}

/// The resources in the list that are not among `seen`, in its order.
pub open spec fn not_seen(resources: Seq<Resource>, seen: Seq<Resource>) -> Seq<Resource> {
    resources.filter(|r: Resource| !seen.contains(r))
}

/// The resources whose request was granted, in order.
pub open spec fn granted(asked: Seq<Resource>, grants: Seq<bool>) -> Seq<Resource>
    decreases asked.len(),
{
    if asked.len() == 0 {
        Seq::empty()
    } else {
        let before = granted(asked.drop_last(), grants.drop_last());
        if grants.last() {
            before.push(asked.last())
        } else {
            before
        }
    }
}

/// Why a session could not be started.
#[derive(PartialEq, Eq, Debug)]
pub enum SessionError {
    /// The controller offers no display card.
    NoDrmCard,
    /// The lease was not granted; the controller's answer is inside.
    LeaseRefused(String),
}

impl SessionError {
    /// The text of the error.
    pub open spec fn text(self) -> Seq<char> {
        match self {
            SessionError::NoDrmCard =>
            "the @sgc daemon advertised no DRM card; nothing to render on"@,
            SessionError::LeaseRefused(answer) => "sgc: "@ + answer@,
        }
    }

    /// The error as text.
    pub fn message(&self) -> (message: String)
        ensures
            message@ == self.text(),
    {
        match self {
            SessionError::NoDrmCard => String::from_str(
                "the @sgc daemon advertised no DRM card; nothing to render on",
            ),
            SessionError::LeaseRefused(answer) => sgc_err(answer.as_str()),
        }
    }
}

/// The message for an error of the controller's client.
pub fn sgc_err(err: &str) -> (message: String)
    ensures
        message@ == "sgc: "@ + err@,
{
    let mut message = String::from_str("sgc: ");
    message.append(err);
    message
}

/// The list of the first `n` resources that a predicate keeps grows by the next
/// one, or stays.
proof fn lemma_filter_step(s: Seq<Resource>, i: int, p: spec_fn(Resource) -> bool)
    requires
        0 <= i < s.len(),
    ensures
        s.take(i + 1).filter(p) == (if p(s[i]) {
            s.take(i).filter(p).push(s[i])
        } else {
            s.take(i).filter(p)
        }),
{
    reveal(Seq::filter);
    assert(s.take(i + 1).drop_last() =~= s.take(i));
}

/// Whether the list holds the resource.
fn contains_resource(list: &Vec<Resource>, resource: Resource) -> (b: bool)
    ensures
        b == list@.contains(resource),
{
    let mut i: usize = 0;
    while i < list.len()
        invariant
            0 <= i <= list@.len(),
            forall|j: int| 0 <= j < i ==> #[trigger] list@[j] != resource,
        decreases list@.len() - i,
    {
        if list[i] == resource {
            assert(list@[i as int] == resource);
            return true;
        }
        i += 1;
    }
    false
}

/// The card of the first display card that is advertised.
pub fn first_drm_card(advertised: &[Resource]) -> (card: Option<u8>)
    ensures
        card == first_card(advertised@),
{
    let mut i: usize = 0;
    assert(advertised@.skip(0) =~= advertised@);
    while i < advertised.len()
        invariant
            0 <= i <= advertised@.len(),
            first_card(advertised@) == first_card(advertised@.skip(i as int)),
        decreases advertised@.len() - i,
    {
        assert(advertised@.skip(i as int).skip(1) =~= advertised@.skip(i + 1));
        if let Resource::Drm { card } = advertised[i] {
            return Some(card);
        }
        i += 1;
    }
    None
}

/// The input devices that are advertised.
pub fn advertised_inputs(advertised: &[Resource]) -> (inputs: Vec<Resource>)
    ensures
        inputs@ == input_devices(advertised@),
{
    let ghost p = |r: Resource| r is Input;
    let mut inputs: Vec<Resource> = Vec::new();
    let mut i: usize = 0;
    assert(advertised@.take(0).filter(p) =~= Seq::empty()) by {
        reveal(Seq::filter);
    }
    while i < advertised.len()
        invariant
            0 <= i <= advertised@.len(),
            p == (|r: Resource| r is Input),
            inputs@ == advertised@.take(i as int).filter(p),
        decreases advertised@.len() - i,
    {
        proof {
            lemma_filter_step(advertised@, i as int, p);
        }
        if advertised[i].is_input() {
            inputs.push(advertised[i]);
        }
        i += 1;
    }
    assert(advertised@.take(i as int) =~= advertised@);
    inputs
}

/// What is held of the controller's resources.
#[derive(PartialEq, Eq, Debug)]
pub struct SgcSession {
    /// The display card's lease, which everything is rendered on.
    pub resource: Resource,
    /// The card of the lease.
    pub card: u8,
    /// The input devices that are held, in the order they were granted in.
    pub inputs: Vec<Resource>,
    /// The list that the controller offered last.
    pub offered: Vec<Resource>,
}

impl SgcSession {
    /// The lease is for the session's card, and only input devices are held as
    /// such.
    pub open spec fn valid(self) -> bool {
        &&& self.resource == Resource::Drm { card: self.card }
        &&& forall|i: int| 0 <= i < self.inputs@.len() ==> #[trigger] self.inputs@[i] is Input
    }

    /// Starts a session. `advertised` is what the controller offers, `lease` how
    /// it answered the request for the first display card, and `grants` which of
    /// the advertised input devices it granted, one answer each in the list's
    /// order. They are asked for once the lease is granted, and without input
    /// support not at all.
    ///
    /// The lease is the one hard requirement: an input device that is refused is
    /// just not held.
    pub fn connect_and_acquire(
        advertised: &[Resource],
        lease: Result<(), String>,
        with_inputs: bool,
        grants: &[bool],
    ) -> (session: Result<SgcSession, SessionError>)
        requires
            with_inputs && first_card(advertised@) is Some && lease is Ok ==> grants@.len()
                == input_devices(advertised@).len(),
        ensures
            match session {
                Ok(session) => {
                    &&& lease is Ok
                    &&& first_card(advertised@) == Some(session.card)
                    &&& session.resource == Resource::Drm { card: session.card }
                    &&& session.inputs@ == (if with_inputs {
                        granted(input_devices(advertised@), grants@)
                    } else {
                        Seq::empty()
                    })
                    &&& session.offered@ == (if with_inputs {
                        advertised@
                    } else {
                        Seq::empty()
                    })
                    &&& session.valid()
                },
                Err(SessionError::NoDrmCard) => first_card(advertised@) is None,
                Err(SessionError::LeaseRefused(answer)) => first_card(advertised@) is Some && lease
                    == Err::<(), String>(answer),
            },
    {
        let card: u8 = match first_drm_card(advertised) {
            Some(card) => card,
            None => {
                return Err(SessionError::NoDrmCard);
            },
        };
        if let Err(answer) = lease {
            return Err(SessionError::LeaseRefused(answer));
        }
        let mut session = SgcSession {
            resource: Resource::Drm { card },
            card,
            inputs: Vec::new(),
            offered: Vec::new(),
        };
        if with_inputs {
            let asked = advertised_inputs(advertised);
            proof {
                lemma_inputs_are_inputs(advertised@);
            }
            let _ = session.record_grants(asked.as_slice(), grants);
            assert(session.inputs@ =~= granted(input_devices(advertised@), grants@));
            session.offered = vstd::slice::slice_to_vec(advertised);
        }
        Ok(session)
    }

    /// The input devices among `resources` that the session does not hold: what
    /// to ask the controller for.
    pub fn acquire_inputs(&self, resources: &[Resource]) -> (wanted: Vec<Resource>)
        ensures
            wanted@ == devices_to_ask_for(resources@, self.inputs@),
    {
        let ghost p = |r: Resource| r is Input && !self.inputs@.contains(r);
        let mut wanted: Vec<Resource> = Vec::new();
        let mut i: usize = 0;
        assert(resources@.take(0).filter(p) =~= Seq::empty()) by {
            reveal(Seq::filter);
        }
        while i < resources.len()
            invariant
                0 <= i <= resources@.len(),
                p == (|r: Resource| r is Input && !self.inputs@.contains(r)),
                wanted@ == resources@.take(i as int).filter(p),
            decreases resources@.len() - i,
        {
            proof {
                lemma_filter_step(resources@, i as int, p);
            }
            if resources[i].is_input() && !contains_resource(&self.inputs, resources[i]) {
                wanted.push(resources[i]);
            }
            i += 1;
        }
        assert(resources@.take(i as int) =~= resources@);
        wanted
    }

    /// Records which of the input devices that were asked for the controller
    /// granted, and returns those.
    pub fn record_grants(&mut self, asked: &[Resource], grants: &[bool]) -> (held: Vec<Resource>)
        requires
            asked@.len() == grants@.len(),
        ensures
            held@ == granted(asked@, grants@),
            final(self).inputs@ == old(self).inputs@ + held@,
            final(self).resource == old(self).resource,
            final(self).card == old(self).card,
            final(self).offered@ == old(self).offered@,
            old(self).valid() && (forall|i: int|
                0 <= i < asked@.len() ==> #[trigger] asked@[i] is Input) ==> final(self).valid(),
    {
        let mut held: Vec<Resource> = Vec::new();
        let mut i: usize = 0;
        assert(granted(asked@.take(0), grants@.take(0)) =~= Seq::empty());
        while i < asked.len()
            invariant
                0 <= i <= asked@.len(),
                asked@.len() == grants@.len(),
                held@ == granted(asked@.take(i as int), grants@.take(i as int)),
                self.inputs@ =~= old(self).inputs@ + held@,
                self.resource == old(self).resource,
                self.card == old(self).card,
                self.offered@ == old(self).offered@,
                (forall|j: int| 0 <= j < asked@.len() ==> #[trigger] asked@[j] is Input) ==> (forall|
                    j: int,
                |
                    0 <= j < held@.len() ==> #[trigger] held@[j] is Input),
            decreases asked@.len() - i,
        {
            assert(asked@.take(i + 1).drop_last() =~= asked@.take(i as int));
            assert(grants@.take(i + 1).drop_last() =~= grants@.take(i as int));
            if grants[i] {
                self.inputs.push(asked[i]);
                held.push(asked[i]);
            }
            i += 1;
        }
        assert(asked@.take(i as int) =~= asked@);
        assert(grants@.take(i as int) =~= grants@);
        held
    }

    /// Adopts a list that the controller pushed, and returns the input devices
    /// to ask for: those that were not on the list before and are not held. A
    /// device that was refused is not asked for again while it stays on the
    /// list.
    pub fn adopt_advertised(&mut self, advertised: &[Resource]) -> (wanted: Vec<Resource>)
        ensures
            wanted@ == devices_to_ask_for(
                not_seen(advertised@, old(self).offered@),
                old(self).inputs@,
            ),
            final(self).offered@ == advertised@,
            final(self).inputs@ == old(self).inputs@,
            final(self).resource == old(self).resource,
            final(self).card == old(self).card,
            final(self).valid() == old(self).valid(),
    {
        let ghost p = |r: Resource| !old(self).offered@.contains(r);
        let mut new: Vec<Resource> = Vec::new();
        let mut i: usize = 0;
        assert(advertised@.take(0).filter(p) =~= Seq::empty()) by {
            reveal(Seq::filter);
        }
        while i < advertised.len()
            invariant
                0 <= i <= advertised@.len(),
                *self == *old(self),
                p == (|r: Resource| !old(self).offered@.contains(r)),
                new@ == advertised@.take(i as int).filter(p),
            decreases advertised@.len() - i,
        {
            proof {
                lemma_filter_step(advertised@, i as int, p);
            }
            if !contains_resource(&self.offered, advertised[i]) {
                new.push(advertised[i]);
            }
            i += 1;
        }
        assert(advertised@.take(i as int) =~= advertised@);
        self.offered = vstd::slice::slice_to_vec(advertised);
        self.acquire_inputs(new.as_slice())
    }

    /// The input devices to ask for once the display is back: every one on the
    /// controller's list that is not held, whether it was refused before or not.
    pub fn reacquire_inputs(&self) -> (wanted: Vec<Resource>)
        ensures
            wanted@ == devices_to_ask_for(self.offered@, self.inputs@),
    {
        self.acquire_inputs(self.offered.as_slice())
    }

    /// Forgets an input device that was revoked, so that it can be asked for
    /// again.
    pub fn forget_input(&mut self, resource: Resource)
        ensures
            final(self).inputs@ == old(self).inputs@.filter(|held: Resource| held != resource),
            final(self).offered@ == old(self).offered@,
            final(self).resource == old(self).resource,
            final(self).card == old(self).card,
            old(self).valid() ==> final(self).valid(),
    {
        let ghost p = |held: Resource| held != resource;
        let mut kept: Vec<Resource> = Vec::new();
        let mut i: usize = 0;
        assert(self.inputs@.take(0).filter(p) =~= Seq::empty()) by {
            reveal(Seq::filter);
        }
        while i < self.inputs.len()
            invariant
                0 <= i <= self.inputs@.len(),
                *self == *old(self),
                p == (|held: Resource| held != resource),
                kept@ == self.inputs@.take(i as int).filter(p),
                self.valid() ==> (forall|j: int|
                    0 <= j < kept@.len() ==> #[trigger] kept@[j] is Input),
            decreases self.inputs@.len() - i,
        {
            proof {
                lemma_filter_step(self.inputs@, i as int, p);
            }
            if self.inputs[i] != resource {
                kept.push(self.inputs[i]);
            }
            i += 1;
        }
        assert(self.inputs@.take(i as int) =~= self.inputs@);
        self.inputs = kept;
    }
}

/// A filtered list holds exactly the resources of the list that the predicate
/// keeps.
proof fn lemma_filter_contains(s: Seq<Resource>, p: spec_fn(Resource) -> bool, r: Resource)
    ensures
        s.filter(p).contains(r) <==> s.contains(r) && p(r),
    decreases s.len(),
{
    reveal(Seq::filter);
    if s.len() > 0 {
        let rest = s.drop_last();
        lemma_filter_contains(rest, p, r);
        assert(s =~= rest.push(s.last()));
        if rest.contains(r) {
            let k = choose|k: int| 0 <= k < rest.len() && rest[k] == r;
            assert(s[k] == r);
        }
        if s.contains(r) && r != s.last() {
            let k = choose|k: int| 0 <= k < s.len() && s[k] == r;
            assert(rest[k] == r);
        }
        let f = rest.filter(p);
        if p(s.last()) {
            let g = f.push(s.last());
            assert(g[f.len() as int] == s.last());
            if f.contains(r) {
                let k = choose|k: int| 0 <= k < f.len() && f[k] == r;
                assert(g[k] == r);
            }
            if g.contains(r) && r != s.last() {
                let k = choose|k: int| 0 <= k < g.len() && g[k] == r;
                assert(f[k] == r);
            }
        }
    }
}

/// [`input_devices`] are input devices.
proof fn lemma_inputs_are_inputs(resources: Seq<Resource>)
    ensures
        forall|i: int|
            0 <= i < input_devices(resources).len() ==> #[trigger] input_devices(resources)[i] is Input,
{
    let p = |r: Resource| r is Input;
    let inputs = input_devices(resources);
    assert forall|i: int| 0 <= i < inputs.len() implies #[trigger] inputs[i] is Input by {
        lemma_filter_contains(resources, p, inputs[i]);
        assert(inputs.contains(inputs[i]));
    }
}

/// The session asks for an input device exactly if it is on the list and not
/// held.
pub proof fn asks_for_what_is_offered_and_not_held(
    resources: Seq<Resource>,
    held: Seq<Resource>,
    r: Resource,
)
    ensures
        devices_to_ask_for(resources, held).contains(r) <==> resources.contains(r) && r is Input
            && !held.contains(r),
{
    lemma_filter_contains(resources, |r: Resource| r is Input && !held.contains(r), r);
}

/// A device that was on the list before is not asked for when a list is adopted,
/// whatever came of it then: it has to leave the list and come back first.
pub proof fn refused_devices_are_not_asked_for_again(
    offered: Seq<Resource>,
    advertised: Seq<Resource>,
    held: Seq<Resource>,
    r: Resource,
)
    ensures
        devices_to_ask_for(not_seen(advertised, offered), held).contains(r) <==> advertised.contains(
            r,
        ) && !offered.contains(r) && r is Input && !held.contains(r),
{
    lemma_filter_contains(advertised, |r: Resource| !offered.contains(r), r);
    asks_for_what_is_offered_and_not_held(not_seen(advertised, offered), held, r);
}

/// Adopting the same list once more asks for nothing.
pub proof fn an_unchanged_list_asks_for_nothing(advertised: Seq<Resource>, held: Seq<Resource>)
    ensures
        devices_to_ask_for(not_seen(advertised, advertised), held) == Seq::<Resource>::empty(),
{
    let asked = devices_to_ask_for(not_seen(advertised, advertised), held);
    if asked.len() > 0 {
        assert(asked.contains(asked[0]));
        refused_devices_are_not_asked_for_again(advertised, advertised, held, asked[0]);
    }
    assert(asked =~= Seq::<Resource>::empty());
}

/// A device that was forgotten is not held, every other one still is, and it is
/// asked for again if the controller offers it.
pub proof fn forgotten_devices_are_asked_for_again(
    offered: Seq<Resource>,
    held: Seq<Resource>,
    forgotten: Resource,
    r: Resource,
)
    ensures
        ({
            let kept = held.filter(|h: Resource| h != forgotten);
            &&& kept.contains(r) <==> held.contains(r) && r != forgotten
            &&& offered.contains(forgotten) && forgotten is Input ==> devices_to_ask_for(
                offered,
                kept,
            ).contains(forgotten)
        }),
{
    let p = |h: Resource| h != forgotten;
    lemma_filter_contains(held, p, r);
    lemma_filter_contains(held, p, forgotten);
    asks_for_what_is_offered_and_not_held(offered, held.filter(p), forgotten);
}

/// Only what was asked for is held afterwards, and all of it if every request
/// was granted.
pub proof fn grants_follow_the_answers(asked: Seq<Resource>, grants: Seq<bool>, r: Resource)
    requires
        asked.len() == grants.len(),
    ensures
        granted(asked, grants).contains(r) <==> exists|i: int|
            0 <= i < asked.len() && #[trigger] asked[i] == r && grants[i],
        (forall|i: int| 0 <= i < grants.len() ==> #[trigger] grants[i]) ==> granted(asked, grants)
            == asked,
        (forall|i: int| 0 <= i < grants.len() ==> !#[trigger] grants[i]) ==> granted(asked, grants)
            == Seq::<Resource>::empty(),
    decreases asked.len(),
{
    if asked.len() > 0 {
        let a = asked.drop_last();
        let g = grants.drop_last();
        grants_follow_the_answers(a, g, r);
        let before = granted(a, g);
        let after = granted(asked, grants);
        let n = asked.len() - 1;
        assert forall|i: int| 0 <= i < g.len() implies #[trigger] g[i] == grants[i] by {}
        assert(grants[n] == grants.last());
        if grants.last() {
            assert(after[before.len() as int] == asked.last());
        }
        if before.contains(r) {
            let k = choose|k: int| 0 <= k < before.len() && before[k] == r;
            assert(after[k] == r);
            let i = choose|i: int| 0 <= i < a.len() && #[trigger] a[i] == r && g[i];
            assert(asked[i] == r && grants[i]);
        }
        if after.contains(r) {
            let k = choose|k: int| 0 <= k < after.len() && after[k] == r;
            if k < before.len() {
                assert(before[k] == r);
                assert(before.contains(r));
            } else {
                assert(asked[n] == r && grants[n]);
            }
        }
        if exists|i: int| 0 <= i < asked.len() && #[trigger] asked[i] == r && grants[i] {
            let i = choose|i: int| 0 <= i < asked.len() && #[trigger] asked[i] == r && grants[i];
            if i < n {
                assert(a[i] == r && g[i]);
                assert(before.contains(r));
            }
        }
        if forall|i: int| 0 <= i < grants.len() ==> #[trigger] grants[i] {
            assert(after =~= asked);
        }
    }
}

impl Resource {
    /// The resource as it is written in messages.
    pub open spec fn text(self) -> Seq<char> {
        match self {
            Resource::Fbdev => "Fbdev"@,
            Resource::Drm { card } => "Drm { card: "@ + decimal_text(card as nat) + " }"@,
            Resource::Input(InputResource::Mouse(n)) => "Input(Mouse("@ + decimal_text(n as nat)
                + "))"@,
            Resource::Input(InputResource::Keyboard(n)) => "Input(Keyboard("@ + decimal_text(
                n as nat,
            ) + "))"@,
            Resource::Input(InputResource::Touch(n)) => "Input(Touch("@ + decimal_text(n as nat)
                + "))"@,
        }
    }

    /// The resource as text.
    pub fn describe(&self) -> (text: String)
        ensures
            text@ == self.text(),
    {
        let (before, number, after): (&str, Option<u8>, &str) = match self {
            Resource::Fbdev => ("Fbdev", None, ""),
            Resource::Drm { card } => ("Drm { card: ", Some(*card), " }"),
            Resource::Input(InputResource::Mouse(n)) => ("Input(Mouse(", Some(*n), "))"),
            Resource::Input(InputResource::Keyboard(n)) => ("Input(Keyboard(", Some(*n), "))"),
            Resource::Input(InputResource::Touch(n)) => ("Input(Touch(", Some(*n), "))"),
        };
        let mut text = String::from_str(before);
        if let Some(n) = number {
            append_decimal(&mut text, n);
            text.append(after);
        }
        text
    }

    /// The events that an application misses without this device.
    pub open spec fn event_kind(self) -> Seq<char> {
        match self {
            Resource::Input(InputResource::Mouse(_)) => "pointer"@,
            Resource::Input(InputResource::Keyboard(_)) => "keyboard"@,
            Resource::Input(InputResource::Touch(_)) => "touch"@,
            _ => "input"@,
        }
    }
}

/// Why an input device was not granted.
#[derive(PartialEq, Eq, Debug)]
pub enum Refusal {
    /// The controller denied it, with its reason.
    Denied(String),
    /// Anything else, as text.
    Failed(String),
}

/// What is said of an input device that was not granted. A denial is for the
/// lifetime of the application, so its message says what that costs and both
/// ways out.
pub open spec fn refusal_text(input: Resource, refusal: Refusal) -> Seq<char> {
    match refusal {
        Refusal::Denied(reason) => "linuxsgc: cannot take "@ + input.text()
            + " — the daemon denied it ("@ + reason@ + "). This app will receive no "@
            + input.event_kind()
            + " events for its whole lifetime: another client holds the device and the daemon's policy is first-owner, which denies a newcomer rather than preempting the holder. Restart this app once that client releases the device, or run @sgc with its default fair-queue policy, where a newcomer preempts the holder instead"@,
        Refusal::Failed(err) => "linuxsgc: cannot take "@ + input.text() + " — "@ + err@
            + ". This app will receive no "@ + input.event_kind() + " events"@,
    }
}

/// The message for an input device that was not granted.
pub fn report_input_refusal(input: Resource, refusal: &Refusal) -> (message: String)
    ensures
        message@ == refusal_text(input, *refusal),
{
    let kind: &str = match input {
        Resource::Input(InputResource::Mouse(_)) => "pointer",
        Resource::Input(InputResource::Keyboard(_)) => "keyboard",
        Resource::Input(InputResource::Touch(_)) => "touch",
        _ => "input",
    };
    let device = input.describe();
    let mut message = String::from_str("linuxsgc: cannot take ");
    message.append(device.as_str());
    match refusal {
        Refusal::Denied(reason) => {
            message.append(" — the daemon denied it (");
            message.append(reason.as_str());
            message.append("). This app will receive no ");
            message.append(kind);
            message.append(
                " events for its whole lifetime: another client holds the device and the daemon's policy is first-owner, which denies a newcomer rather than preempting the holder. Restart this app once that client releases the device, or run @sgc with its default fair-queue policy, where a newcomer preempts the holder instead",
            );
        },
        Refusal::Failed(err) => {
            message.append(" — ");
            message.append(err.as_str());
            message.append(". This app will receive no ");
            message.append(kind);
            message.append(" events");
        },
    }
    message
}

/// The card that is leased is the first one advertised: it stands somewhere in the
/// list and no display card stands before it. There is none only if the list has
/// no display card.
pub proof fn the_first_card_advertised_is_leased(resources: Seq<Resource>)
    ensures
        first_card(resources) matches Some(card) ==> exists|i: int|
            {
                &&& 0 <= i < resources.len()
                &&& #[trigger] resources[i] == (Resource::Drm { card })
                &&& forall|j: int| 0 <= j < i ==> !(#[trigger] resources[j] is Drm)
            },
        first_card(resources) is None ==> forall|i: int|
            0 <= i < resources.len() ==> !(#[trigger] resources[i] is Drm),
    decreases resources.len(),
{
    if resources.len() > 0 && !(resources[0] is Drm) {
        let rest = resources.skip(1);
        the_first_card_advertised_is_leased(rest);
        if let Some(card) = first_card(rest) {
            let i = choose|i: int|
                {
                    &&& 0 <= i < rest.len()
                    &&& #[trigger] rest[i] == (Resource::Drm { card })
                    &&& forall|j: int| 0 <= j < i ==> !(#[trigger] rest[j] is Drm)
                };
            assert(resources[i + 1] == Resource::Drm { card });
            assert forall|j: int| 0 <= j < i + 1 implies !(#[trigger] resources[j] is Drm) by {
                if j > 0 {
                    assert(rest[j - 1] == resources[j]);
                }
            }
        } else {
            assert forall|i: int| 0 <= i < resources.len() implies !(
            #[trigger] resources[i] is Drm) by {
                if i > 0 {
                    assert(rest[i - 1] == resources[i]);
                }
            }
        }
    }
}

/// What follows the first display card in the list has no say in which card is
/// leased.
pub proof fn later_cards_do_not_matter(before: Seq<Resource>, card: u8, after: Seq<Resource>)
    requires
        forall|i: int| 0 <= i < before.len() ==> !(#[trigger] before[i] is Drm),
    ensures
        first_card(before.push(Resource::Drm { card }) + after) == Some(card),
{
    let all = before.push(Resource::Drm { card }) + after;
    let n = before.len() as int;
    the_first_card_advertised_is_leased(all);
    assert(all[n] == Resource::Drm { card });
    assert forall|j: int| 0 <= j < n implies !(#[trigger] all[j] is Drm) by {
        assert(all[j] == before[j]);
    }
}

/// A list that is filtered in two parts is filtered as a whole.
proof fn lemma_filter_splits(a: Seq<Resource>, b: Seq<Resource>, p: spec_fn(Resource) -> bool)
    ensures
        (a + b).filter(p) == a.filter(p) + b.filter(p),
    decreases b.len(),
{
    reveal(Seq::filter);
    if b.len() == 0 {
        assert(a + b =~= a);
        assert(a.filter(p) + b.filter(p) =~= a.filter(p));
    } else {
        lemma_filter_splits(a, b.drop_last(), p);
        assert((a + b).drop_last() =~= a + b.drop_last());
        assert((a + b).last() == b.last());
        assert((a + b).filter(p) =~= a.filter(p) + b.filter(p));
    }
}

/// Filtering a list of one keeps it or leaves nothing.
proof fn lemma_filter_one(r: Resource, p: spec_fn(Resource) -> bool)
    ensures
        seq![r].filter(p) == (if p(r) {
            seq![r]
        } else {
            Seq::empty()
        }),
{
    reveal(Seq::filter);
    assert(seq![r].drop_last() =~= Seq::<Resource>::empty());
    assert(seq![r].drop_last().filter(p) =~= Seq::<Resource>::empty());
    assert(seq![r].filter(p) =~= (if p(r) {
        seq![r]
    } else {
        Seq::empty()
    }));
}

/// Each resource of a list is judged by itself and in its place: what is asked for
/// of a list is what is asked for of its parts, one after the other, and of a
/// single resource it is that one or nothing. Every input device is asked for at
/// the start, later on those that are not held, and when a list is adopted those
/// that were not on the one before.
pub proof fn resources_are_judged_one_by_one(
    before: Seq<Resource>,
    r: Resource,
    after: Seq<Resource>,
    held: Seq<Resource>,
)
    ensures
        input_devices(before + after) == input_devices(before) + input_devices(after),
        input_devices(seq![r]) == (if r is Input {
            seq![r]
        } else {
            Seq::empty()
        }),
        devices_to_ask_for(before + after, held) == devices_to_ask_for(before, held)
            + devices_to_ask_for(after, held),
        devices_to_ask_for(seq![r], held) == (if r is Input && !held.contains(r) {
            seq![r]
        } else {
            Seq::empty()
        }),
        not_seen(before + after, held) == not_seen(before, held) + not_seen(after, held),
        not_seen(seq![r], held) == (if held.contains(r) {
            Seq::empty()
        } else {
            seq![r]
        }),
{
    lemma_filter_splits(before, after, |r: Resource| r is Input);
    lemma_filter_one(r, |r: Resource| r is Input);
    lemma_filter_splits(before, after, |r: Resource| r is Input && !held.contains(r));
    lemma_filter_one(r, |r: Resource| r is Input && !held.contains(r));
    lemma_filter_splits(before, after, |r: Resource| !held.contains(r));
    lemma_filter_one(r, |r: Resource| !held.contains(r));
}

/// An empty list gives nothing to ask for.
pub proof fn nothing_offered_is_nothing_asked_for(held: Seq<Resource>)
    ensures
        first_card(Seq::empty()) is None,
        input_devices(Seq::empty()) == Seq::<Resource>::empty(),
        devices_to_ask_for(Seq::empty(), held) == Seq::<Resource>::empty(),
        not_seen(Seq::empty(), held) == Seq::<Resource>::empty(),
{
    reveal(Seq::filter);
}

/// Each request is answered by itself and in its place: one that is granted is
/// held after those granted before it, one that is refused is not.
pub proof fn answers_are_taken_one_by_one(
    asked: Seq<Resource>,
    grants: Seq<bool>,
    next: Resource,
)
    requires
        asked.len() == grants.len(),
    ensures
        granted(Seq::empty(), Seq::empty()) == Seq::<Resource>::empty(),
        granted(asked.push(next), grants.push(true)) == granted(asked, grants).push(next),
        granted(asked.push(next), grants.push(false)) == granted(asked, grants),
{
    assert(asked.push(next).drop_last() =~= asked);
    assert(grants.push(true).drop_last() =~= grants);
    assert(grants.push(false).drop_last() =~= grants);
}

/// A resource is written with its kind and its number.
pub proof fn resources_are_written_with_kind_and_number(n: u8)
    ensures
        Resource::Fbdev.text() == "Fbdev"@,
        (Resource::Drm { card: n }).text() == "Drm { card: "@ + decimal_text(n as nat) + " }"@,
        Resource::Input(InputResource::Mouse(n)).text() == "Input(Mouse("@ + decimal_text(n as nat)
            + "))"@,
        Resource::Input(InputResource::Keyboard(n)).text() == "Input(Keyboard("@ + decimal_text(
            n as nat,
        ) + "))"@,
        Resource::Input(InputResource::Touch(n)).text() == "Input(Touch("@ + decimal_text(n as nat)
            + "))"@,
{
}

/// What an application misses without a device depends on its class alone.
pub proof fn each_class_has_its_events(n: u8)
    ensures
        Resource::Input(InputResource::Mouse(n)).event_kind() == "pointer"@,
        Resource::Input(InputResource::Keyboard(n)).event_kind() == "keyboard"@,
        Resource::Input(InputResource::Touch(n)).event_kind() == "touch"@,
        (Resource::Drm { card: n }).event_kind() == "input"@,
        Resource::Fbdev.event_kind() == "input"@,
{
}

/// Every refusal is told with the device, the reason and the events that the
/// application misses, and a denial also that this is for good.
pub proof fn a_refusal_is_told_with_its_reason(input: Resource, reason: String)
    ensures
        ({
            let told = "linuxsgc: cannot take "@ + input.text() + " — the daemon denied it ("@
                + reason@ + "). This app will receive no "@ + input.event_kind()
                + " events for its whole lifetime"@;
            let denied = refusal_text(input, Refusal::Denied(reason));
            denied.len() > told.len() && denied.take(told.len() as int) == told
        }),
        refusal_text(input, Refusal::Failed(reason)) == "linuxsgc: cannot take "@ + input.text()
            + " — "@ + reason@ + ". This app will receive no "@ + input.event_kind() + " events"@,
{
    reveal_strlit(" events for its whole lifetime");
    reveal_strlit(
        " events for its whole lifetime: another client holds the device and the daemon's policy is first-owner, which denies a newcomer rather than preempting the holder. Restart this app once that client releases the device, or run @sgc with its default fair-queue policy, where a newcomer preempts the holder instead",
    );
    let head = "linuxsgc: cannot take "@ + input.text() + " — the daemon denied it ("@ + reason@
        + "). This app will receive no "@ + input.event_kind();
    let told = head + " events for its whole lifetime"@;
    let denied = refusal_text(input, Refusal::Denied(reason));
    assert(denied.take(told.len() as int) =~= told);
}

/// A session that could not be started says why: there is no card, or what the
/// controller answered.
pub proof fn a_failed_start_is_told(answer: String)
    ensures
        SessionError::NoDrmCard.text()
            == "the @sgc daemon advertised no DRM card; nothing to render on"@,
        SessionError::LeaseRefused(answer).text() == "sgc: "@ + answer@,
{
}

} // verus!
