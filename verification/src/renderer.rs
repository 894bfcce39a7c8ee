//! Which renderer is used, and what the renderers keep of the display.

use vstd::prelude::*;

verus! {

/// A renderer.
#[derive(Clone, Copy, PartialEq, Eq, Structural, Debug)]
pub enum RendererKind {
    /// The GL renderer.
    FemtoVG,
    /// The software renderer.
    Software,
}

impl RendererKind {
    /// The name of the renderer in messages.
    pub open spec fn text(self) -> Seq<char> {
        match self {
            RendererKind::FemtoVG => "FemtoVG"@,
            RendererKind::Software => "Software"@,
        }
    }

    /// The name of the renderer in messages.
    pub fn name(self) -> (name: &'static str)
        ensures
            name@ == self.text(),
    {
        match self {
            RendererKind::FemtoVG => "FemtoVG",
            RendererKind::Software => "Software",
        }
    }
}

/// The renderers that are built in.
#[derive(Clone, Copy, PartialEq, Eq, Structural, Debug)]
pub struct RendererFeatures {
    pub femtovg: bool,
    pub software: bool,
}

/// How the renderer is chosen.
#[derive(Clone, Copy, PartialEq, Eq, Structural, Debug)]
pub enum RendererChoice {
    /// This one and no other.
    Only(RendererKind),
    /// The first one that works.
    FirstThatWorks,
}

/// What a renderer's name asks for: a renderer that is built in, by its name; any
/// other name, and none, leave the choice open.
pub open spec fn choice_of(name: Option<Seq<char>>, features: RendererFeatures) -> RendererChoice {
    match name {
        Some(name) => if name == "femtovg"@ && features.femtovg {
            RendererChoice::Only(RendererKind::FemtoVG)
        } else if name == "software"@ && features.software {
            RendererChoice::Only(RendererKind::Software)
        } else {
            RendererChoice::FirstThatWorks
        },
        None => RendererChoice::FirstThatWorks,
    }
}

/// The choice that a renderer's name makes.
pub fn renderer_choice(name: Option<&String>, features: RendererFeatures) -> (choice:
    RendererChoice)
    ensures
        choice == choice_of(
            match name {
                Some(name) => Some(name@),
                None => None,
            },
            features,
        ),
{
    match name {
        Some(name) => {
            if features.femtovg && name.eq(&String::from_str("femtovg")) {
                return RendererChoice::Only(RendererKind::FemtoVG);
            }
            if features.software && name.eq(&String::from_str("software")) {
                return RendererChoice::Only(RendererKind::Software);
            }
            RendererChoice::FirstThatWorks
        },
        None => RendererChoice::FirstThatWorks,
    }
}

/// The renderers to try if the choice is open: the GL renderer before the
/// software renderer, as far as they are built in.
pub open spec fn attempts(features: RendererFeatures) -> Seq<RendererKind> {
    let first = if features.femtovg {
        seq![RendererKind::FemtoVG]
    } else {
        seq![]
    };
    if features.software {
        first.push(RendererKind::Software)
    } else {
        first
    }
}

/// One line for each renderer that failed.
pub open spec fn failure_lines(kinds: Seq<RendererKind>, failures: Seq<String>) -> Seq<char>
    decreases failures.len(),
{
    if failures.len() == 0 {
        Seq::empty()
    } else {
        failure_lines(kinds, failures.drop_last()) + "Error from "@ + kinds[failures.len()
            - 1].text() + " renderer: "@ + failures.last()@ + "\n"@
    }
}

/// What is said if no renderer works.
pub open spec fn no_renderer_text(kinds: Seq<RendererKind>, failures: Seq<String>) -> Seq<char> {
    "Could not initialize any renderer for the LinuxSGC backend.\n"@ + failure_lines(
        kinds,
        failures,
    ) + "No renderers configured."@
}

/// What comes next when a renderer is looked for.
#[derive(PartialEq, Eq, Debug)]
pub enum RendererAttempt {
    /// Create this renderer.
    Try(RendererKind),
    /// There is no renderer, for this reason.
    GiveUp(String),
}

/// The renderers to try if the choice is open.
fn renderers_to_try(features: RendererFeatures) -> (kinds: Vec<RendererKind>)
    ensures
        kinds@ == attempts(features),
{
    let mut kinds: Vec<RendererKind> = Vec::new();
    if features.femtovg {
        kinds.push(RendererKind::FemtoVG);
    }
    if features.software {
        kinds.push(RendererKind::Software);
    }
    assert(kinds@ =~= attempts(features));
    kinds
}

/// Looks for the first renderer that works. `failures` are the errors of those
/// that were tried so far, in the order they were tried in.
pub fn try_femtovg_then_software(features: RendererFeatures, failures: &[String]) -> (next:
    RendererAttempt)
    requires
        failures@.len() <= attempts(features).len(),
    ensures
        match next {
            RendererAttempt::Try(kind) => failures@.len() < attempts(features).len() && kind
                == attempts(features)[failures@.len() as int],
            RendererAttempt::GiveUp(message) => failures@.len() == attempts(features).len()
                && message@ == no_renderer_text(attempts(features), failures@),
        },
{
    let kinds = renderers_to_try(features);
    if failures.len() < kinds.len() {
        return RendererAttempt::Try(kinds[failures.len()]);
    }
    let mut message = String::from_str(
        "Could not initialize any renderer for the LinuxSGC backend.\n",
    );
    let ghost head = message@;
    let mut i: usize = 0;
    assert(message@ =~= head + failure_lines(kinds@, failures@.take(0)));
    while i < failures.len()
        invariant
            0 <= i <= failures@.len() == kinds@.len(),
            message@ == head + failure_lines(kinds@, failures@.take(i as int)),
        decreases failures@.len() - i,
    {
        let ghost before = failure_lines(kinds@, failures@.take(i as int));
        assert(failures@.take(i + 1).drop_last() =~= failures@.take(i as int));
        message.append("Error from ");
        message.append(kinds[i].name());
        message.append(" renderer: ");
        message.append(failures[i].as_str());
        message.append("\n");
        assert(message@ =~= head + (before + "Error from "@ + kinds@[i as int].text()
            + " renderer: "@ + failures@[i as int]@ + "\n"@));
        i += 1;
    }
    assert(failures@.take(i as int) =~= failures@);
    message.append("No renderers configured.");
    RendererAttempt::GiveUp(message)
}

/// Looks for a renderer under a choice. One that was asked for by name is tried
/// alone, and its error stands as it is.
pub fn next_renderer(choice: RendererChoice, features: RendererFeatures, failures: &[String]) -> (
    next: RendererAttempt)
    requires
        choice is FirstThatWorks ==> failures@.len() <= attempts(features).len(),
        choice is Only ==> failures@.len() <= 1,
    ensures
        match choice {
            RendererChoice::Only(kind) => match next {
                RendererAttempt::Try(tried) => failures@.len() == 0 && tried == kind,
                RendererAttempt::GiveUp(message) => failures@.len() == 1 && message@
                    == failures@[0]@,
            },
            RendererChoice::FirstThatWorks => match next {
                RendererAttempt::Try(kind) => failures@.len() < attempts(features).len() && kind
                    == attempts(features)[failures@.len() as int],
                RendererAttempt::GiveUp(message) => failures@.len() == attempts(features).len()
                    && message@ == no_renderer_text(attempts(features), failures@),
            },
        },
{
    match choice {
        RendererChoice::Only(kind) => if failures.len() == 0 {
            RendererAttempt::Try(kind)
        } else {
            RendererAttempt::GiveUp(String::from_str(failures[0].as_str()))
        },
        RendererChoice::FirstThatWorks => try_femtovg_then_software(features, failures),
    }
}

/// The GL renderer is tried first and the software renderer only after it has
/// failed; where just one is built in, just that one is tried.
pub proof fn femtovg_comes_first(features: RendererFeatures)
    ensures
        features.femtovg ==> attempts(features).len() > 0 && attempts(features)[0]
            == RendererKind::FemtoVG,
        features.software ==> attempts(features).last() == RendererKind::Software,
        features.femtovg && features.software ==> attempts(features) == seq![
            RendererKind::FemtoVG,
            RendererKind::Software,
        ],
        features.femtovg && !features.software ==> attempts(features) == seq![
            RendererKind::FemtoVG,
        ],
        !features.femtovg && features.software ==> attempts(features) == seq![
            RendererKind::Software,
        ],
        !features.femtovg && !features.software ==> attempts(features) == Seq::<
            RendererKind,
        >::empty(),
{
}

/// What came of drawing a frame.
#[derive(Clone, Copy, PartialEq, Eq, Structural, Debug)]
pub enum DrawOutcome {
    Success,
    Occluded,
    Timeout,
}

/// Whether a frame that the GL renderer has drawn is presented: only one that is
/// complete.
pub fn presents(outcome: DrawOutcome) -> (present: bool)
    ensures
        present == (outcome == DrawOutcome::Success),
{
    match outcome {
        DrawOutcome::Success => true,
        _ => false,
    }
}

/// The extent of a display in pixels.
#[derive(Clone, Copy, PartialEq, Eq, Structural, Debug)]
pub struct PhysicalSize {
    pub width: u32,
    pub height: u32,
}

/// What the software renderer keeps of the display `D` that it draws on. The
/// display is bound to the lease; the renderer itself survives its loss.
pub struct SoftwareRendererAdapter<D> {
    display: Option<D>,
    size: PhysicalSize,
}

impl<D> SoftwareRendererAdapter<D> {
    /// The display that is drawn on.
    pub closed spec fn display(self) -> Option<D> {
        self.display
    }

    /// The extent of the display.
    pub closed spec fn extent(self) -> PhysicalSize {
        self.size
    }

    /// A renderer on a new display. `opened` is the display with its extent, or
    /// why there is none.
    pub fn new(opened: Result<(D, PhysicalSize), String>) -> (adapter: Result<Self, String>)
        ensures
            match opened {
                Ok((display, size)) => adapter matches Ok(adapter) && adapter.display() == Some(
                    display,
                ) && adapter.extent() == size,
                Err(err) => adapter == Err::<Self, String>(err),
            },
    {
        let mut adapter = SoftwareRendererAdapter {
            display: None,
            size: PhysicalSize { width: 0, height: 0 },
        };
        match adapter.init_display(opened) {
            Ok(_) => Ok(adapter),
            Err(err) => Err(err),
        }
    }

    /// Puts the renderer on a new display. If there is none, the renderer stays
    /// as it is.
    pub fn init_display(&mut self, opened: Result<(D, PhysicalSize), String>) -> (done: Result<
        (),
        String,
    >)
        ensures
            match opened {
                Ok((display, size)) => {
                    &&& done is Ok
                    &&& final(self).display() == Some(display)
                    &&& final(self).extent() == size
                },
                Err(err) => done == Err::<(), String>(err) && *final(self) == *old(self),
            },
    {
        match opened {
            Ok((display, size)) => {
                self.display = Some(display);
                self.size = size;
                Ok(())
            },
            Err(err) => Err(err),
        }
    }

    /// Puts the renderer on the display of a lease that was granted again.
    pub fn rebuild(&mut self, opened: Result<(D, PhysicalSize), String>) -> (done: Result<
        (),
        String,
    >)
        ensures
            match opened {
                Ok((display, size)) => {
                    &&& done is Ok
                    &&& final(self).display() == Some(display)
                    &&& final(self).extent() == size
                },
                Err(err) => done == Err::<(), String>(err) && *final(self) == *old(self),
            },
    {
        self.init_display(opened)
    }

    /// The display that is drawn on.
    pub fn current_display(&self) -> (display: &D)
        requires
            self.display() is Some,
        ensures
            self.display() == Some(*display),
    {
        self.display.as_ref().unwrap()
    }

    /// The extent of the display.
    pub fn size(&self) -> (size: PhysicalSize)
        ensures
            size == self.extent(),
    {
        self.size
    }
}

/// What the GL renderer keeps of the display `D` that it draws on.
pub struct FemtoVGRendererAdapter<D> {
    gbm_display: D,
    size: PhysicalSize,
}

impl<D> FemtoVGRendererAdapter<D> {
    /// The display that is drawn on.
    pub closed spec fn display(self) -> D {
        self.gbm_display
    }

    /// The extent of the display.
    pub closed spec fn extent(self) -> PhysicalSize {
        self.size
    }

    /// A renderer on a display that its GL context was set up for.
    pub fn new(gbm_display: D, size: PhysicalSize) -> (adapter: Self)
        ensures
            adapter.display() == gbm_display,
            adapter.extent() == size,
    {
        FemtoVGRendererAdapter { gbm_display, size }
    }

    /// Puts the renderer on the display of a lease that was granted again, once
    /// its GL context is set up there. If that failed, the renderer stays as it
    /// is.
    pub fn rebuild(&mut self, opened: Result<(D, PhysicalSize), String>) -> (done: Result<
        (),
        String,
    >)
        ensures
            match opened {
                Ok((display, size)) => {
                    &&& done is Ok
                    &&& final(self).display() == display
                    &&& final(self).extent() == size
                },
                Err(err) => done == Err::<(), String>(err) && *final(self) == *old(self),
            },
    {
        match opened {
            Ok((display, size)) => {
                self.gbm_display = display;
                self.size = size;
                Ok(())
            },
            Err(err) => Err(err),
        }
    }

    /// The display that is drawn on.
    pub fn current_display(&self) -> (display: &D)
        ensures
            *display == self.display(),
    {
        &self.gbm_display
    }

    /// The extent of the display.
    pub fn size(&self) -> (size: PhysicalSize)
        ensures
            size == self.extent(),
    {
        self.size
    }
}

/// A name asks for a renderer exactly if it is that renderer's and the renderer is
/// built in; without a name, or under any other, the choice is open.
pub proof fn a_renderer_is_asked_for_by_its_name(
    name: Option<Seq<char>>,
    features: RendererFeatures,
)
    ensures
        choice_of(name, features) == RendererChoice::Only(RendererKind::FemtoVG) <==> name == Some(
            "femtovg"@,
        ) && features.femtovg,
        choice_of(name, features) == RendererChoice::Only(RendererKind::Software) <==> name == Some(
            "software"@,
        ) && features.software,
        choice_of(name, features) == RendererChoice::FirstThatWorks <==> !(name == Some(
            "femtovg"@,
        ) && features.femtovg) && !(name == Some("software"@) && features.software),
{
    reveal_strlit("femtovg");
    reveal_strlit("software");
    assert("femtovg"@.len() != "software"@.len());
}

/// Exactly the renderers that are built in are tried, none of them twice.
pub proof fn what_is_built_in_is_tried_once(features: RendererFeatures, kind: RendererKind)
    ensures
        attempts(features).contains(kind) <==> (match kind {
            RendererKind::FemtoVG => features.femtovg,
            RendererKind::Software => features.software,
        }),
        forall|i: int, j: int|
            0 <= i < j < attempts(features).len() ==> attempts(features)[i] != attempts(
                features,
            )[j],
{
    femtovg_comes_first(features);
    let tried = attempts(features);
    if features.femtovg {
        assert(tried[0] == RendererKind::FemtoVG);
    }
    if features.software {
        assert(tried[tried.len() - 1] == RendererKind::Software);
    }
}

/// Each renderer that failed has a line of its own, in the order they were tried
/// in, with its name and its error; around them stands what they are about.
pub proof fn every_failure_has_its_line(
    kinds: Seq<RendererKind>,
    failures: Seq<String>,
    failure: String,
)
    ensures
        failure_lines(kinds, Seq::empty()) == Seq::<char>::empty(),
        failure_lines(kinds, failures.push(failure)) == failure_lines(kinds, failures)
            + "Error from "@ + kinds[failures.len() as int].text() + " renderer: "@ + failure@
            + "\n"@,
        no_renderer_text(kinds, failures)
            == "Could not initialize any renderer for the LinuxSGC backend.\n"@ + failure_lines(
            kinds,
            failures,
        ) + "No renderers configured."@,
        RendererKind::FemtoVG.text() == "FemtoVG"@,
        RendererKind::Software.text() == "Software"@,
{
    assert(failures.push(failure).drop_last() =~= failures);
}

} // verus!
