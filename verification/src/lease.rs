//! The lease on the display card: whether it is held, on which descriptor, and
//! what its loss and return do to rendering.
//!
//! A revoked lease suspends rendering. A lease that is granted again brings a
//! fresh descriptor, on which the display stack has to be rebuilt before
//! rendering resumes. `F` is the type of the descriptor.

use vstd::prelude::*;

use crate::flags::OpenFlags;
use crate::path::{display_path, is_card, lossy_text, names_card};
use crate::sgc::Resource;
use crate::text::{append_decimal, decimal_text};

verus! {

/// Something that the controller says while a session lasts.
#[derive(PartialEq, Eq, Debug)]
pub enum SgcEvent<F> {
    /// A resource is taken away.
    Revoked { resource: Resource },
    /// A resource is granted, on this descriptor.
    Granted { resource: Resource, fd: F },
    /// The list of what is offered has changed.
    Advertised { available_resources: Vec<Resource> },
}

/// What has to be done about an event of the controller.
#[derive(PartialEq, Eq, Debug)]
pub enum SgcAction<F> {
    /// Nothing: the event names no resource that this session deals with.
    Ignore,
    /// Nothing more: rendering is suspended.
    Suspended,
    /// Nothing more: there is no window yet, and the lease is held again.
    Resumed,
    /// Rebuild the window's display stack on the lease that is held now, and
    /// report how that went.
    Rebuild,
    /// Remove this input device.
    RemoveInput(Resource),
    /// Add this input device.
    AddInput(Resource, F),
}

/// Why a device cannot be opened.
#[derive(PartialEq, Eq, Debug)]
pub enum DeviceError {
    /// It is not the leased card. Holds the device's path and the card.
    NotTheLease(String, u8),
    /// The lease is not held. Holds the device's path.
    NoLease(String),
    /// It is not the card whose descriptor was set. Holds the device's path and
    /// the card.
    NotTheInjected(String, u8),
    /// It could not be opened. Holds the device's path and the error.
    OpenFailed(String, String),
    /// The descriptor's flags could not be read.
    GetFlags(String),
    /// The descriptor could not be made blocking.
    SetFlags(String),
}

impl DeviceError {
    /// The text of the error.
    pub open spec fn text(self) -> Seq<char> {
        match self {
            DeviceError::NotTheLease(device, card) => "Refusing to open "@ + device@
                + ": rendering only on the sgc lease fd for card"@ + decimal_text(card as nat),
            DeviceError::NoLease(device) => "No lease fd held for "@ + device@
                + " (revoked?): nothing to render on"@,
            DeviceError::NotTheInjected(device, card) => "Refusing to open "@ + device@
                + ": rendering on the injected DRM fd for card"@ + decimal_text(card as nat),
            DeviceError::OpenFailed(device, err) => "Error opening device "@ + device@ + ": "@
                + err@,
            DeviceError::GetFlags(err) => "Error getting file descriptor flags: "@ + err@,
            DeviceError::SetFlags(err) => "Error making device fd blocking: "@ + err@,
        }
    }

    /// The error as text.
    pub fn message(&self) -> (message: String)
        ensures
            message@ == self.text(),
    {
        match self {
            DeviceError::NotTheLease(device, card) => {
                let mut message = String::from_str("Refusing to open ");
                message.append(device.as_str());
                message.append(": rendering only on the sgc lease fd for card");
                append_decimal(&mut message, *card);
                message
            },
            DeviceError::NoLease(device) => {
                let mut message = String::from_str("No lease fd held for ");
                message.append(device.as_str());
                message.append(" (revoked?): nothing to render on");
                message
            },
            DeviceError::NotTheInjected(device, card) => {
                let mut message = String::from_str("Refusing to open ");
                message.append(device.as_str());
                message.append(": rendering on the injected DRM fd for card");
                append_decimal(&mut message, *card);
                message
            },
            DeviceError::OpenFailed(device, err) => {
                let mut message = String::from_str("Error opening device ");
                message.append(device.as_str());
                message.append(": ");
                message.append(err.as_str());
                message
            },
            DeviceError::GetFlags(err) => {
                let mut message = String::from_str("Error getting file descriptor flags: ");
                message.append(err.as_str());
                message
            },
            DeviceError::SetFlags(err) => {
                let mut message = String::from_str("Error making device fd blocking: ");
                message.append(err.as_str());
                message
            },
        }
    }
}

/// The status flags to give a device's descriptor, which waits for page flips
/// and so has to block: those it has, without the non-blocking one. `current` is
/// what reading them returned.
pub fn flags_for_rendering(current: Result<i32, String>, host: &OpenFlags) -> (flags: Result<
    i32,
    DeviceError,
>)
    ensures
        match current {
            Ok(current) => flags == Ok::<i32, DeviceError>(current & !host.nonblock),
            Err(err) => flags == Err::<i32, DeviceError>(DeviceError::GetFlags(err)),
        },
{
    match current {
        Ok(current) => Ok(host.blocking(current)),
        Err(err) => Err(DeviceError::GetFlags(err)),
    }
}

/// Whether a device's descriptor is ready to render on. `outcome` is what setting
/// its flags returned.
pub fn ready_for_rendering(outcome: Result<(), String>) -> (ready: Result<(), DeviceError>)
    ensures
        match outcome {
            Ok(_) => ready is Ok,
            Err(err) => ready == Err::<(), DeviceError>(DeviceError::SetFlags(err)),
        },
{
    match outcome {
        Ok(_) => Ok(()),
        Err(err) => Err(DeviceError::SetFlags(err)),
    }
}

/// The state of the lease.
#[verifier::ext_equal]
pub struct LeaseState<F> {
    /// The card that is leased.
    pub card: u8,
    /// The descriptor of the lease while it is held.
    pub drm_fd: Option<F>,
    /// Nothing is rendered.
    pub suspended: bool,
    /// There is a window to render.
    pub window: bool,
    /// Input devices are dealt with.
    pub inputs: bool,
}

impl<F> LeaseState<F> {
    /// Whatever is rendered is rendered on a lease that is held.
    pub open spec fn valid(self) -> bool {
        !self.suspended ==> self.drm_fd is Some
    }

    /// The event is about the lease.
    pub open spec fn concerns_lease(self, event: SgcEvent<F>) -> bool {
        match event {
            SgcEvent::Revoked { resource } => resource == Resource::Drm { card: self.card },
            SgcEvent::Granted { resource, .. } => resource == Resource::Drm { card: self.card },
            SgcEvent::Advertised { .. } => false,
        }
    }

    /// The state right after an event.
    pub open spec fn after(self, event: SgcEvent<F>) -> LeaseState<F> {
        if !self.concerns_lease(event) {
            self
        } else {
            match event {
                SgcEvent::Revoked { .. } => LeaseState { drm_fd: None, suspended: true, ..self },
                SgcEvent::Granted { fd, .. } => LeaseState {
                    drm_fd: Some(fd),
                    suspended: self.suspended && self.window,
                    ..self
                },
                SgcEvent::Advertised { .. } => self,
            }
        }
    }

    /// What an event asks for.
    pub open spec fn action(self, event: SgcEvent<F>) -> SgcAction<F> {
        match event {
            SgcEvent::Revoked { resource: Resource::Drm { card } } => if card == self.card {
                SgcAction::Suspended
            } else {
                SgcAction::Ignore
            },
            SgcEvent::Granted { resource: Resource::Drm { card }, .. } => if card != self.card {
                SgcAction::Ignore
            } else if self.window {
                SgcAction::Rebuild
            } else {
                SgcAction::Resumed
            },
            SgcEvent::Revoked { resource: Resource::Input(input) } => if self.inputs {
                SgcAction::RemoveInput(Resource::Input(input))
            } else {
                SgcAction::Ignore
            },
            SgcEvent::Granted { resource: Resource::Input(input), fd } => if self.inputs {
                SgcAction::AddInput(Resource::Input(input), fd)
            } else {
                SgcAction::Ignore
            },
            _ => SgcAction::Ignore,
        }
    }

    /// The state after an event whose rebuild, where it asks for one, has
    /// succeeded.
    pub open spec fn settled(self, event: SgcEvent<F>) -> LeaseState<F> {
        if self.action(event) is Rebuild {
            LeaseState { suspended: false, ..self.after(event) }
        } else {
            self.after(event)
        }
    }

    /// The state after a number of events whose rebuilds have all succeeded.
    pub open spec fn settled_all(self, events: Seq<SgcEvent<F>>) -> LeaseState<F>
        decreases events.len(),
    {
        if events.len() == 0 {
            self
        } else {
            self.settled_all(events.drop_last()).settled(events.last())
        }
    }
}

/// What the event loop and the window share.
pub struct SharedState<F> {
    card: u8,
    drm_fd: Option<F>,
    suspended: bool,
    window: bool,
    inputs: bool,
}

impl<F> View for SharedState<F> {
    type V = LeaseState<F>;

    closed spec fn view(&self) -> LeaseState<F> {
        LeaseState {
            card: self.card,
            drm_fd: self.drm_fd,
            suspended: self.suspended,
            window: self.window,
            inputs: self.inputs,
        }
    }
}

impl<F> SharedState<F> {
    /// The state at the start: the lease on `card` is held on `fd`, and there is
    /// no window yet.
    pub fn new(card: u8, fd: F, inputs: bool) -> (shared: SharedState<F>)
        ensures
            shared@ == (LeaseState {
                card,
                drm_fd: Some(fd),
                suspended: false,
                window: false,
                inputs,
            }),
            shared@.valid(),
    {
        SharedState { card, drm_fd: Some(fd), suspended: false, window: false, inputs }
    }

    /// There is a window from now on.
    pub fn window_created(&mut self)
        ensures
            final(self)@ == (LeaseState { window: true, ..old(self)@ }),
    {
        self.window = true;
    }

    /// Whether there is a window.
    pub fn has_window(&self) -> (window: bool)
        ensures
            window == self@.window,
    {
        self.window
    }

    /// Whether rendering is suspended.
    pub fn is_suspended(&self) -> (suspended: bool)
        ensures
            suspended == self@.suspended,
    {
        self.suspended
    }

    /// The descriptor to render on. The leased card is opened while the lease is
    /// held, and nothing else ever.
    pub fn device_accessor(&self, device: &[u8]) -> (fd: Result<&F, DeviceError>)
        ensures
            match fd {
                Ok(fd) => names_card(device@, self@.card) && self@.drm_fd == Some(*fd),
                Err(DeviceError::NotTheLease(path, card)) => {
                    &&& !names_card(device@, self@.card)
                    &&& path@ == lossy_text(device@)
                    &&& card == self@.card
                },
                Err(DeviceError::NoLease(path)) => {
                    &&& names_card(device@, self@.card)
                    &&& self@.drm_fd is None
                    &&& path@ == lossy_text(device@)
                },
                Err(_) => false,
            },
    {
        if !is_card(device, self.card) {
            return Err(DeviceError::NotTheLease(display_path(device), self.card));
        }
        match &self.drm_fd {
            Some(fd) => Ok(fd),
            None => Err(DeviceError::NoLease(display_path(device))),
        }
    }

    /// Takes note of an event of the controller, and says what has to be done
    /// about it. Only an event about the leased card changes the state of the
    /// lease, and only one about an input device touches the input devices.
    pub fn on_sgc_event(&mut self, event: SgcEvent<F>) -> (action: SgcAction<F>)
        ensures
            final(self)@ == old(self)@.after(event),
            action == old(self)@.action(event),
    {
        match event {
            SgcEvent::Revoked { resource: Resource::Drm { card } } => {
                if card != self.card {
                    return SgcAction::Ignore;
                }
                self.suspended = true;
                self.drm_fd = None;
                SgcAction::Suspended
            },
            SgcEvent::Granted { resource: Resource::Drm { card }, fd } => {
                if card != self.card {
                    return SgcAction::Ignore;
                }
                self.drm_fd = Some(fd);
                if self.window {
                    return SgcAction::Rebuild;
                }
                self.suspended = false;
                SgcAction::Resumed
            },
            SgcEvent::Revoked { resource: Resource::Input(input) } => {
                if self.inputs {
                    SgcAction::RemoveInput(Resource::Input(input))
                } else {
                    SgcAction::Ignore
                }
            },
            SgcEvent::Granted { resource: Resource::Input(input), fd } => {
                if self.inputs {
                    SgcAction::AddInput(Resource::Input(input), fd)
                } else {
                    SgcAction::Ignore
                }
            },
            _ => SgcAction::Ignore,
        }
    }

    /// Takes note of how rebuilding the display stack went. Rendering resumes on
    /// success; a failure is fatal and leaves everything as it is.
    pub fn rebuild_finished(&mut self, outcome: Result<(), String>) -> (result: Result<(), String>)
        ensures
            result == outcome,
            outcome is Ok ==> final(self)@ == (LeaseState { suspended: false, ..old(self)@ }),
            outcome is Err ==> *final(self) == *old(self),
    {
        if outcome.is_ok() {
            self.suspended = false;
        }
        outcome
    }

    /// One round of draining the controller's events. `pumped` is what the
    /// session gave: an event, nothing, or the error that ended it.
    pub fn pump_sgc(&mut self, pumped: Result<Option<SgcEvent<F>>, String>) -> (step: PumpStep<F>)
        ensures
            match pumped {
                Ok(Some(event)) => {
                    &&& final(self)@ == old(self)@.after(event)
                    &&& step == PumpStep::Perform(old(self)@.action(event))
                },
                Ok(None) => *final(self) == *old(self) && step == PumpStep::<F>::Drained,
                Err(err) => *final(self) == *old(self) && step == PumpStep::<F>::Failed(err),
            },
    {
        match pumped {
            Ok(Some(event)) => PumpStep::Perform(self.on_sgc_event(event)),
            Ok(None) => PumpStep::Drained,
            Err(err) => PumpStep::Failed(err),
        }
    }

    /// Goes on with draining after an action was performed. `rebuilt` is how
    /// rebuilding the display stack went, if the action was that. A rebuild that
    /// failed ends the draining, and the events after it are not read.
    pub fn action_performed(&mut self, rebuilt: Option<Result<(), String>>) -> (step: PumpStep<F>)
        ensures
            match rebuilt {
                None => *final(self) == *old(self) && step == PumpStep::<F>::Next,
                Some(Ok(_)) => {
                    &&& final(self)@ == (LeaseState { suspended: false, ..old(self)@ })
                    &&& step == PumpStep::<F>::Next
                },
                Some(Err(err)) => *final(self) == *old(self) && step == PumpStep::<F>::Failed(err),
            },
    {
        match rebuilt {
            None => PumpStep::Next,
            Some(outcome) => match self.rebuild_finished(outcome) {
                Ok(_) => PumpStep::Next,
                Err(err) => PumpStep::Failed(err),
            },
        }
    }
}

/// What comes next when the controller's events are drained.
#[derive(PartialEq, Eq, Debug)]
pub enum PumpStep<F> {
    /// Do this, and report back.
    Perform(SgcAction<F>),
    /// Ask the session for its next event.
    Next,
    /// There are no more events now.
    Drained,
    /// Draining is over: the session is, and the lease with it, or the display
    /// stack could not be rebuilt.
    Failed(String),
}

/// What draining leaves: the state, how many events were read, and the error it
/// ended with, if any.
pub struct Drained<F> {
    pub state: LeaseState<F>,
    pub read: nat,
    pub failed: Option<String>,
}

/// Draining these events, where `rebuilt` says of each how a rebuild that it asks
/// for goes.
pub open spec fn drained<F>(
    state: LeaseState<F>,
    events: Seq<SgcEvent<F>>,
    rebuilt: Seq<Result<(), String>>,
) -> Drained<F>
    decreases events.len(),
{
    if events.len() == 0 {
        Drained { state, read: 0, failed: None }
    } else {
        let before = drained(state, events.drop_last(), rebuilt);
        let event = events.last();
        if before.failed is Some {
            before
        } else if before.state.action(event) is Rebuild {
            match rebuilt[events.len() - 1] {
                Ok(_) => Drained {
                    state: before.state.settled(event),
                    read: before.read + 1,
                    failed: None,
                },
                Err(err) => Drained {
                    state: before.state.after(event),
                    read: before.read + 1,
                    failed: Some(err),
                },
            }
        } else {
            Drained {
                state: before.state.after(event),
                read: before.read + 1,
                failed: None,
            }
        }
    }
}

/// A rebuild that fails ends the draining with its error: the events after it are
/// not read and change nothing.
pub proof fn a_failed_rebuild_ends_the_draining<F>(
    state: LeaseState<F>,
    events: Seq<SgcEvent<F>>,
    more: Seq<SgcEvent<F>>,
    rebuilt: Seq<Result<(), String>>,
)
    ensures
        drained(state, events, rebuilt).failed is Some ==> drained(state, events + more, rebuilt)
            == drained(state, events, rebuilt),
        drained(state, events, rebuilt).failed is None ==> drained(state, events, rebuilt).read
            == events.len() && drained(state, events, rebuilt).state == state.settled_all(events),
    decreases events.len() + more.len(),
{
    if more.len() > 0 {
        a_failed_rebuild_ends_the_draining(state, events, more.drop_last(), rebuilt);
        assert((events + more).drop_last() =~= events + more.drop_last());
    } else {
        assert(events + more =~= events);
        if events.len() > 0 {
            a_failed_rebuild_ends_the_draining(state, events.drop_last(), more, rebuilt);
        }
    }
}

/// What is rendered is rendered on a lease that is held, after every event and
/// after a rebuild.
pub proof fn rendering_needs_the_lease<F>(state: LeaseState<F>, events: Seq<SgcEvent<F>>)
    requires
        state.valid(),
    ensures
        state.settled_all(events).valid(),
        forall|event: SgcEvent<F>|
            #![trigger state.after(event)]
            state.after(event).valid() && state.settled(event).valid(),
    decreases events.len(),
{
    if events.len() > 0 {
        rendering_needs_the_lease(state, events.drop_last());
        let before = state.settled_all(events.drop_last());
        rendering_needs_the_lease(before, Seq::empty());
        assert(before.after(events.last()).valid());
    }
}

/// Losing the lease suspends rendering and gives up its descriptor, and getting
/// it back resumes rendering on the new one, once the display stack is rebuilt.
pub proof fn a_regrant_resumes_what_a_revoke_suspended<F>(state: LeaseState<F>, fd: F)
    ensures
        ({
            let lease = Resource::Drm { card: state.card };
            let revoked = state.after(SgcEvent::Revoked { resource: lease });
            let granted = SgcEvent::Granted { resource: lease, fd };
            &&& revoked.suspended && revoked.drm_fd is None
            &&& state.window ==> revoked.action(granted) == SgcAction::<F>::Rebuild && revoked.after(
                granted,
            ).suspended
            &&& revoked.settled(granted) == (LeaseState {
                drm_fd: Some(fd),
                suspended: false,
                ..state
            })
        }),
{
}

/// An event about an input device, another card or another resource leaves the
/// lease alone, and an event about the lease asks for nothing of the input
/// devices.
pub proof fn events_are_routed_by_resource<F>(state: LeaseState<F>, event: SgcEvent<F>)
    ensures
        !state.concerns_lease(event) ==> state.settled(event) == state,
        !state.concerns_lease(event) ==> !(state.action(event) is Suspended || state.action(
            event,
        ) is Resumed || state.action(event) is Rebuild),
        state.concerns_lease(event) ==> !(state.action(event) is AddInput || state.action(
            event,
        ) is RemoveInput || state.action(event) is Ignore),
{
}

/// The last event about the lease decides whether it is held and whether anything
/// is rendered, whatever else comes before or after it.
pub proof fn the_last_lease_event_decides<F>(
    state: LeaseState<F>,
    before: Seq<SgcEvent<F>>,
    event: SgcEvent<F>,
    after: Seq<SgcEvent<F>>,
)
    requires
        state.concerns_lease(event),
        forall|i: int| 0 <= i < after.len() ==> !state.concerns_lease(#[trigger] after[i]),
    ensures
        ({
            let end = state.settled_all(before.push(event) + after);
            match event {
                SgcEvent::Granted { fd, .. } => end.drm_fd == Some(fd) && !end.suspended,
                _ => end.drm_fd is None && end.suspended,
            }
        }),
    decreases after.len(),
{
    let events = before.push(event) + after;
    if after.len() == 0 {
        assert(events.drop_last() =~= before);
        assert(events.last() == event);
        lemma_card_stays(state, before);
    } else {
        let rest = after.drop_last();
        assert(events.drop_last() =~= before.push(event) + rest);
        assert(events.last() == after[after.len() - 1]);
        assert forall|i: int| 0 <= i < rest.len() implies !state.concerns_lease(
            #[trigger] rest[i],
        ) by {
            assert(rest[i] == after[i]);
        }
        the_last_lease_event_decides(state, before, event, rest);
        lemma_card_stays(state, events.drop_last());
        events_are_routed_by_resource(state.settled_all(events.drop_last()), events.last());
    }
}

/// No event changes which card is leased.
proof fn lemma_card_stays<F>(state: LeaseState<F>, events: Seq<SgcEvent<F>>)
    ensures
        state.settled_all(events).card == state.card,
    decreases events.len(),
{
    if events.len() > 0 {
        lemma_card_stays(state, events.drop_last());
    }
}

/// In a session that deals with input devices, a grant of any of them asks for
/// that very device to be added on the descriptor that was granted, and a revoke
/// for that very device to be removed, whatever state the lease is in. Without
/// input support both are ignored. The lease stays as it is.
pub proof fn input_devices_come_and_go<F>(
    state: LeaseState<F>,
    input: crate::sgc::InputResource,
    fd: F,
)
    ensures
        ({
            let resource = Resource::Input(input);
            let granted = SgcEvent::Granted { resource, fd };
            let revoked = SgcEvent::<F>::Revoked { resource };
            &&& state.inputs ==> state.action(granted) == SgcAction::AddInput(resource, fd)
            &&& state.inputs ==> state.action(revoked) == SgcAction::<F>::RemoveInput(resource)
            &&& !state.inputs ==> state.action(granted) == SgcAction::<F>::Ignore
            &&& !state.inputs ==> state.action(revoked) == SgcAction::<F>::Ignore
            &&& state.after(granted) == state
            &&& state.after(revoked) == state
        }),
{
}

/// A revoke of the lease always suspends rendering and drops the descriptor, and
/// nothing else changes.
pub proof fn a_revoke_of_the_lease_suspends<F>(state: LeaseState<F>)
    ensures
        ({
            let revoked = SgcEvent::<F>::Revoked { resource: Resource::Drm { card: state.card } };
            let after = state.after(revoked);
            &&& state.action(revoked) == SgcAction::<F>::Suspended
            &&& after.suspended && after.drm_fd is None
            &&& after.card == state.card && after.window == state.window && after.inputs
                == state.inputs
            &&& state.settled(revoked) == after
        }),
{
}

/// A grant of the lease always brings its descriptor. With a window the display
/// stack has to be rebuilt, and what was suspended stays so until that is done;
/// without one rendering resumes at once. Nothing else changes.
pub proof fn a_grant_of_the_lease_brings_its_descriptor<F>(state: LeaseState<F>, fd: F)
    ensures
        ({
            let granted = SgcEvent::Granted { resource: Resource::Drm { card: state.card }, fd };
            let after = state.after(granted);
            &&& after.drm_fd == Some(fd)
            &&& after.card == state.card && after.window == state.window && after.inputs
                == state.inputs
            &&& state.window ==> state.action(granted) == SgcAction::<F>::Rebuild
                && after.suspended == state.suspended
            &&& !state.window ==> state.action(granted) == SgcAction::<F>::Resumed
                && !after.suspended
            &&& !state.settled(granted).suspended && state.settled(granted).drm_fd == Some(fd)
        }),
{
}

/// Events about another card, about the framebuffer device or about the list of
/// what is offered are ignored and change nothing.
pub proof fn events_of_others_are_ignored<F>(
    state: LeaseState<F>,
    card: u8,
    list: Vec<Resource>,
    fd: F,
)
    requires
        card != state.card,
    ensures
        ({
            let other = Resource::Drm { card };
            let ignored = |event: SgcEvent<F>|
                state.action(event) == SgcAction::<F>::Ignore && state.after(event) == state
                    && state.settled(event) == state;
            &&& ignored(SgcEvent::Granted { resource: other, fd })
            &&& ignored(SgcEvent::Revoked { resource: other })
            &&& ignored(SgcEvent::Granted { resource: Resource::Fbdev, fd })
            &&& ignored(SgcEvent::Revoked { resource: Resource::Fbdev })
            &&& ignored(SgcEvent::Advertised { available_resources: list })
        }),
{
}

/// An event concerns the lease exactly if it grants or revokes the leased card.
pub proof fn only_the_leased_card_concerns_the_lease<F>(
    state: LeaseState<F>,
    resource: Resource,
    list: Vec<Resource>,
    fd: F,
)
    ensures
        state.concerns_lease(SgcEvent::Granted { resource, fd }) <==> resource == (Resource::Drm {
            card: state.card,
        }),
        state.concerns_lease(SgcEvent::Revoked { resource }) <==> resource == (Resource::Drm {
            card: state.card,
        }),
        !state.concerns_lease(SgcEvent::Advertised { available_resources: list }),
{
}

/// What is rendered is rendered on a descriptor: a valid state without one is
/// suspended, and one with a descriptor is valid either way.
pub proof fn a_state_without_a_descriptor_is_suspended<F>(state: LeaseState<F>)
    ensures
        state.valid() && state.drm_fd is None ==> state.suspended,
        state.drm_fd is Some || state.suspended ==> state.valid(),
{
}

/// Every error of opening a device names the device or the reason, and the card
/// that it was held against.
pub proof fn device_errors_say_what_is_wrong(device: String, err: String, card: u8)
    ensures
        DeviceError::NotTheLease(device, card).text() == "Refusing to open "@ + device@
            + ": rendering only on the sgc lease fd for card"@ + decimal_text(card as nat),
        DeviceError::NoLease(device).text() == "No lease fd held for "@ + device@
            + " (revoked?): nothing to render on"@,
        DeviceError::NotTheInjected(device, card).text() == "Refusing to open "@ + device@
            + ": rendering on the injected DRM fd for card"@ + decimal_text(card as nat),
        DeviceError::OpenFailed(device, err).text() == "Error opening device "@ + device@ + ": "@
            + err@,
        DeviceError::GetFlags(err).text() == "Error getting file descriptor flags: "@ + err@,
        DeviceError::SetFlags(err).text() == "Error making device fd blocking: "@ + err@,
{
}

} // verus!
