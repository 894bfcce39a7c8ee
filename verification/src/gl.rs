//! Setting up the GL context that the GL renderer draws with, step by step.

use vstd::prelude::*;

verus! {

/// Why the GL context is not there, or fails.
#[derive(PartialEq, Eq, Debug)]
pub enum GlError {
    /// The display is no pixel wide.
    InvalidWidth,
    /// The display is no pixel high.
    InvalidHeight,
    /// The EGL display could not be created.
    Display(String),
    /// The EGL configurations could not be listed.
    Configs(String),
    /// No EGL configuration fits.
    NoConfig,
    /// No context could be created.
    Context(String),
    /// The window surface could not be created.
    Surface(String),
    /// The new context could not be made current.
    MakeCurrent(String),
    /// The context could not be made current again.
    EnsureCurrent(String),
    /// The buffers could not be swapped.
    SwapBuffers(String),
}

impl GlError {
    /// The text of the error.
    pub open spec fn text(self) -> Seq<char> {
        match self {
            GlError::InvalidWidth =>
            "Attempting to create window surface with an invalid width: 0"@,
            GlError::InvalidHeight =>
            "Attempting to create window surface with an invalid height: 0"@,
            GlError::Display(err) => "Error creating EGL display: "@ + err@,
            GlError::Configs(err) => "Error locating EGL configs: "@ + err@,
            GlError::NoConfig => "Unable to find suitable GL config"@,
            GlError::Context(err) => "Error creating EGL context: "@ + err@,
            GlError::Surface(err) => "Error creating EGL window surface: "@ + err@,
            GlError::MakeCurrent(err) =>
            "FemtoVG Renderer: Failed to make newly created OpenGL context current: "@ + err@,
            GlError::EnsureCurrent(err) => "FemtoVG: Error making context current: "@ + err@,
            GlError::SwapBuffers(err) => "FemtoVG: Error swapping buffers: "@ + err@,
        }
    }

    /// The error as text.
    pub fn message(&self) -> (message: String)
        ensures
            message@ == self.text(),
    {
        let (before, err): (&str, Option<&String>) = match self {
            GlError::InvalidWidth => (
                "Attempting to create window surface with an invalid width: 0",
                None,
            ),
            GlError::InvalidHeight => (
                "Attempting to create window surface with an invalid height: 0",
                None,
            ),
            GlError::Display(err) => ("Error creating EGL display: ", Some(err)),
            GlError::Configs(err) => ("Error locating EGL configs: ", Some(err)),
            GlError::NoConfig => ("Unable to find suitable GL config", None),
            GlError::Context(err) => ("Error creating EGL context: ", Some(err)),
            GlError::Surface(err) => ("Error creating EGL window surface: ", Some(err)),
            GlError::MakeCurrent(err) => (
                "FemtoVG Renderer: Failed to make newly created OpenGL context current: ",
                Some(err),
            ),
            GlError::EnsureCurrent(err) => ("FemtoVG: Error making context current: ", Some(err)),
            GlError::SwapBuffers(err) => ("FemtoVG: Error swapping buffers: ", Some(err)),
        };
        let mut message = String::from_str(before);
        if let Some(err) = err {
            message.append(err.as_str());
        }
        message
    }
}

/// What a choice between EGL configurations depends on.
#[derive(Clone, Copy, PartialEq, Eq, Structural, Debug)]
pub struct GlConfig {
    /// Whether the configuration supports transparency, if the platform says so.
    pub transparency: Option<bool>,
    /// The samples per pixel.
    pub samples: u8,
}

impl GlConfig {
    /// The configuration is known to support transparency.
    pub open spec fn transparent(self) -> bool {
        self.transparency == Some(true)
    }

    /// Whether the configuration is known to support transparency.
    fn is_transparent(&self) -> (b: bool)
        ensures
            b == self.transparent(),
    {
        match self.transparency {
            Some(transparency) => transparency,
            None => false,
        }
    }
}

/// The configuration to take: one without transparency if there is any, of those
/// one with the fewest samples, and of those the first.
pub open spec fn is_chosen(configs: Seq<GlConfig>, chosen: int) -> bool {
    &&& 0 <= chosen < configs.len()
    &&& (exists|i: int| 0 <= i < configs.len() && !(#[trigger] configs[i]).transparent())
        ==> !configs[chosen].transparent()
    &&& forall|i: int|
        0 <= i < configs.len() && (#[trigger] configs[i]).transparent()
            == configs[chosen].transparent() ==> configs[chosen].samples <= configs[i].samples
    &&& forall|i: int|
        0 <= i < chosen && (#[trigger] configs[i]).transparent() == configs[chosen].transparent()
            ==> configs[chosen].samples < configs[i].samples
}

/// The configuration to take, if there is any at all.
pub open spec fn chosen_config(configs: Seq<GlConfig>) -> Option<int> {
    if configs.len() == 0 {
        None
    } else {
        Some(choose|chosen: int| is_chosen(configs, chosen))
    }
}

/// There are no two configurations to take.
proof fn lemma_one_is_chosen(configs: Seq<GlConfig>, a: int, b: int)
    requires
        is_chosen(configs, a),
        is_chosen(configs, b),
    ensures
        a == b,
{
    assert(configs[a].transparent() == configs[b].transparent());
}

/// Chooses an EGL configuration, by its index: one without transparency if there
/// is any, and of those the first with the fewest samples.
pub fn choose_config(configs: &[GlConfig]) -> (chosen: Option<usize>)
    ensures
        match chosen {
            Some(chosen) => is_chosen(configs@, chosen as int) && chosen_config(configs@) == Some(
                chosen as int,
            ),
            None => configs@.len() == 0 && chosen_config(configs@) is None,
        },
{
    if configs.len() == 0 {
        return None;
    }
    let mut chosen: usize = 0;
    let mut i: usize = 1;
    while i < configs.len()
        invariant
            1 <= i <= configs@.len(),
            chosen < i,
            is_chosen(configs@.take(i as int), chosen as int),
        decreases configs@.len() - i,
    {
        let ghost before = configs@.take(i as int);
        let ghost after = configs@.take(i + 1);
        let ghost was: int = chosen as int;
        let (config, accum): (GlConfig, GlConfig) = (configs[i], configs[chosen]);
        let (config_transparent, accum_transparent): (bool, bool) = (
            config.is_transparent(),
            accum.is_transparent(),
        );
        if (accum_transparent && !config_transparent) || (accum_transparent == config_transparent
            && config.samples < accum.samples) {
            chosen = i;
        }
        proof {
            assert forall|k: int| 0 <= k < i implies #[trigger] after[k] == before[k] by {}
            assert(after[i as int] == config);
            assert(before[was] == accum);
            if exists|k: int| 0 <= k < after.len() && !(#[trigger] after[k]).transparent() {
                let k = choose|k: int| 0 <= k < after.len() && !(#[trigger] after[k]).transparent();
                if k < i {
                    assert(!before[k].transparent());
                }
            }
            assert forall|k: int|
                0 <= k < after.len() && (#[trigger] after[k]).transparent()
                    == after[chosen as int].transparent() implies after[chosen as int].samples
                <= after[k].samples by {
                if k < i {
                    assert(after[k] == before[k]);
                }
            }
            assert forall|k: int|
                0 <= k < chosen && (#[trigger] after[k]).transparent()
                    == after[chosen as int].transparent() implies after[chosen as int].samples
                < after[k].samples by {
                assert(after[k] == before[k]);
            }
        }
        i += 1;
    }
    assert(configs@.take(i as int) =~= configs@);
    proof {
        lemma_one_is_chosen(configs@, chosen as int, chosen_config(configs@)->0);
    }
    Some(chosen)
}

/// The client interface that a context is created for.
#[derive(Clone, Copy, PartialEq, Eq, Structural, Debug)]
pub enum ContextApi {
    /// OpenGL ES 2.0.
    Gles2,
    /// Whatever the display offers.
    Any,
}

/// A step of setting up the context.
#[derive(PartialEq, Eq, Debug)]
pub enum GlStep {
    CreateDisplay,
    FindConfigs,
    /// Create a context for the configuration of this index.
    CreateContext(usize, ContextApi),
    /// Create a window surface for the configuration of this index.
    CreateSurface(usize),
    MakeCurrent,
    /// The context is current.
    Ready,
    /// There will be no context.
    Failed(GlError),
}

/// What came of a step.
#[derive(PartialEq, Eq, Debug)]
pub enum GlOutcome {
    Succeeded,
    /// The configurations that were found and fit the display.
    Configs(Vec<GlConfig>),
    Failed(String),
}

/// The step after `step`, depending on what came of it.
pub open spec fn gl_step_after(step: GlStep, outcome: GlOutcome) -> GlStep {
    match step {
        GlStep::CreateDisplay => match outcome {
            GlOutcome::Failed(err) => GlStep::Failed(GlError::Display(err)),
            _ => GlStep::FindConfigs,
        },
        GlStep::FindConfigs => match outcome {
            GlOutcome::Failed(err) => GlStep::Failed(GlError::Configs(err)),
            GlOutcome::Configs(configs) => match chosen_config(configs@) {
                Some(chosen) => GlStep::CreateContext(chosen as usize, ContextApi::Gles2),
                None => GlStep::Failed(GlError::NoConfig),
            },
            GlOutcome::Succeeded => GlStep::Failed(GlError::NoConfig),
        },
        GlStep::CreateContext(config, api) => match outcome {
            GlOutcome::Failed(err) => if api == ContextApi::Gles2 {
                GlStep::CreateContext(config, ContextApi::Any)
            } else {
                GlStep::Failed(GlError::Context(err))
            },
            _ => GlStep::CreateSurface(config),
        },
        GlStep::CreateSurface(_) => match outcome {
            GlOutcome::Failed(err) => GlStep::Failed(GlError::Surface(err)),
            _ => GlStep::MakeCurrent,
        },
        GlStep::MakeCurrent => match outcome {
            GlOutcome::Failed(err) => GlStep::Failed(GlError::MakeCurrent(err)),
            _ => GlStep::Ready,
        },
        GlStep::Ready => GlStep::Ready,
        GlStep::Failed(err) => GlStep::Failed(err),
    }
}

/// Starts to set up a context for a display of this size, which must not be
/// empty.
pub fn start_gl(width: u32, height: u32) -> (step: GlStep)
    ensures
        step == (if width == 0 {
            GlStep::Failed(GlError::InvalidWidth)
        } else if height == 0 {
            GlStep::Failed(GlError::InvalidHeight)
        } else {
            GlStep::CreateDisplay
        }),
{
    if width == 0 {
        GlStep::Failed(GlError::InvalidWidth)
    } else if height == 0 {
        GlStep::Failed(GlError::InvalidHeight)
    } else {
        GlStep::CreateDisplay
    }
}

/// Goes on with setting up a context after a step and what came of it.
pub fn continue_gl(step: GlStep, outcome: GlOutcome) -> (next: GlStep)
    ensures
        next == gl_step_after(step, outcome),
{
    match step {
        GlStep::CreateDisplay => match outcome {
            GlOutcome::Failed(err) => GlStep::Failed(GlError::Display(err)),
            _ => GlStep::FindConfigs,
        },
        GlStep::FindConfigs => match outcome {
            GlOutcome::Failed(err) => GlStep::Failed(GlError::Configs(err)),
            GlOutcome::Configs(configs) => match choose_config(configs.as_slice()) {
                Some(chosen) => GlStep::CreateContext(chosen, ContextApi::Gles2),
                None => GlStep::Failed(GlError::NoConfig),
            },
            GlOutcome::Succeeded => GlStep::Failed(GlError::NoConfig),
        },
        GlStep::CreateContext(config, api) => match outcome {
            GlOutcome::Failed(err) => match api {
                ContextApi::Gles2 => GlStep::CreateContext(config, ContextApi::Any),
                ContextApi::Any => GlStep::Failed(GlError::Context(err)),
            },
            _ => GlStep::CreateSurface(config),
        },
        GlStep::CreateSurface(_) => match outcome {
            GlOutcome::Failed(err) => GlStep::Failed(GlError::Surface(err)),
            _ => GlStep::MakeCurrent,
        },
        GlStep::MakeCurrent => match outcome {
            GlOutcome::Failed(err) => GlStep::Failed(GlError::MakeCurrent(err)),
            _ => GlStep::Ready,
        },
        GlStep::Ready => GlStep::Ready,
        GlStep::Failed(err) => GlStep::Failed(err),
    }
}

/// Wherever there is a configuration, one is taken: without transparency unless
/// there is none such, and of those the first with the fewest samples.
pub proof fn fewest_samples_are_chosen(configs: Seq<GlConfig>)
    requires
        configs.len() > 0,
    ensures
        chosen_config(configs) matches Some(chosen) && is_chosen(configs, chosen),
{
    lemma_some_is_chosen(configs);
}

/// Some configuration is the one to take.
proof fn lemma_some_is_chosen(configs: Seq<GlConfig>)
    requires
        configs.len() > 0,
    ensures
        exists|chosen: int| is_chosen(configs, chosen),
    decreases configs.len(),
{
    let rest = configs.drop_last();
    let last = configs.len() - 1;
    if rest.len() == 0 {
        assert(is_chosen(configs, last));
    } else {
        lemma_some_is_chosen(rest);
        let before = choose|chosen: int| is_chosen(rest, chosen);
        assert forall|k: int| 0 <= k < last implies #[trigger] configs[k] == rest[k] by {}
        let (config, accum) = (configs[last], configs[before]);
        let chosen = if (accum.transparent() && !config.transparent()) || (accum.transparent()
            == config.transparent() && config.samples < accum.samples) {
            last
        } else {
            before
        };
        if exists|k: int| 0 <= k < configs.len() && !(#[trigger] configs[k]).transparent() {
            let k = choose|k: int|
                0 <= k < configs.len() && !(#[trigger] configs[k]).transparent();
            if k < last {
                assert(!rest[k].transparent());
            }
        }
        assert forall|k: int|
            0 <= k < configs.len() && (#[trigger] configs[k]).transparent()
                == configs[chosen].transparent() implies configs[chosen].samples
            <= configs[k].samples by {
            if k < last {
                assert(configs[k] == rest[k]);
            }
        }
        assert forall|k: int|
            0 <= k < chosen && (#[trigger] configs[k]).transparent()
                == configs[chosen].transparent() implies configs[chosen].samples
            < configs[k].samples by {
            assert(configs[k] == rest[k]);
        }
        assert(is_chosen(configs, chosen));
    }
}

/// A context is created for OpenGL ES 2 if that works, and else for whatever the
/// display offers; only if that fails too, there is none.
pub proof fn any_context_is_the_fallback(config: usize, first: String, second: String)
    ensures
        gl_step_after(GlStep::CreateContext(config, ContextApi::Gles2), GlOutcome::Succeeded)
            == GlStep::CreateSurface(config),
        gl_step_after(
            gl_step_after(
                GlStep::CreateContext(config, ContextApi::Gles2),
                GlOutcome::Failed(first),
            ),
            GlOutcome::Succeeded,
        ) == GlStep::CreateSurface(config),
        gl_step_after(
            gl_step_after(
                GlStep::CreateContext(config, ContextApi::Gles2),
                GlOutcome::Failed(first),
            ),
            GlOutcome::Failed(second),
        ) == GlStep::Failed(GlError::Context(second)),
{
}

/// Of the configurations that are found, the one taken is no worse than any other:
/// it supports transparency only if all do, among those alike in that it has the
/// fewest samples, and among those alike in both it comes first. Not to know
/// whether one supports transparency is as good as to know that it does not.
pub proof fn no_configuration_is_better_than_the_one_taken(configs: Seq<GlConfig>, i: int)
    requires
        0 <= i < configs.len(),
    ensures
        chosen_config(configs) matches Some(chosen) && {
            let (taken, other) = (configs[chosen], configs[i]);
            &&& 0 <= chosen < configs.len()
            &&& taken.transparency == Some(true) ==> other.transparency == Some(true)
            &&& (taken.transparency == Some(true)) == (other.transparency == Some(true))
                ==> taken.samples <= other.samples
            &&& (taken.transparency == Some(true)) == (other.transparency == Some(true))
                && taken.samples == other.samples ==> chosen <= i
        },
{
    fewest_samples_are_chosen(configs);
    let chosen = chosen_config(configs)->0;
    assert(configs[i].transparent() == (configs[i].transparency == Some(true)));
    assert(configs[chosen].transparent() == (configs[chosen].transparency == Some(true)));
}

/// Where no configuration is found none is taken.
pub proof fn nothing_is_taken_of_nothing()
    ensures
        chosen_config(Seq::empty()) is None,
{
}

/// A context is set up in order: the display, a configuration, the context for it,
/// the surface for the same one, and then it is made current. A step that fails
/// ends it with an error of its own, but for the first try at a context.
pub proof fn a_context_is_set_up_in_order(config: usize, api: ContextApi, err: String)
    ensures
        ({
            let (done, failed) = (GlOutcome::Succeeded, GlOutcome::Failed(err));
            &&& gl_step_after(GlStep::CreateDisplay, done) == GlStep::FindConfigs
            &&& gl_step_after(GlStep::CreateDisplay, failed) == GlStep::Failed(
                GlError::Display(err),
            )
            &&& gl_step_after(GlStep::FindConfigs, failed) == GlStep::Failed(GlError::Configs(err))
            &&& gl_step_after(GlStep::CreateContext(config, api), done) == GlStep::CreateSurface(
                config,
            )
            &&& gl_step_after(GlStep::CreateContext(config, ContextApi::Gles2), failed)
                == GlStep::CreateContext(config, ContextApi::Any)
            &&& gl_step_after(GlStep::CreateContext(config, ContextApi::Any), failed)
                == GlStep::Failed(GlError::Context(err))
            &&& gl_step_after(GlStep::CreateSurface(config), done) == GlStep::MakeCurrent
            &&& gl_step_after(GlStep::CreateSurface(config), failed) == GlStep::Failed(
                GlError::Surface(err),
            )
            &&& gl_step_after(GlStep::MakeCurrent, done) == GlStep::Ready
            &&& gl_step_after(GlStep::MakeCurrent, failed) == GlStep::Failed(
                GlError::MakeCurrent(err),
            )
        }),
{
}

/// A list of configurations leads on with one of them, for OpenGL ES 2 first; an
/// empty one ends it.
pub proof fn the_search_goes_on_with_a_configuration(configs: Vec<GlConfig>, i: int)
    ensures
        configs@.len() == 0 ==> gl_step_after(GlStep::FindConfigs, GlOutcome::Configs(configs))
            == GlStep::Failed(GlError::NoConfig),
        0 <= i < configs@.len() ==> (gl_step_after(
            GlStep::FindConfigs,
            GlOutcome::Configs(configs),
        ) matches GlStep::CreateContext(chosen, api) && {
            &&& api == ContextApi::Gles2
            &&& chosen < configs@.len()
            &&& configs@[chosen as int].transparency == Some(true) ==> configs@[i].transparency
                == Some(true)
            &&& configs@[chosen as int].transparency == configs@[i].transparency
                ==> configs@[chosen as int].samples <= configs@[i].samples
        }),
{
    if 0 <= i < configs@.len() {
        no_configuration_is_better_than_the_one_taken(configs@, i);
        assert(configs.len() == configs@.len());
    }
}

/// What is settled stays so, whatever comes after it.
pub proof fn what_is_settled_stays_so(err: GlError, outcome: GlOutcome)
    ensures
        gl_step_after(GlStep::Ready, outcome) == GlStep::Ready,
        gl_step_after(GlStep::Failed(err), outcome) == GlStep::Failed(err),
{
}

/// Every error is told with what was tried and the reason.
pub proof fn gl_errors_say_what_failed(err: String)
    ensures
        GlError::InvalidWidth.text()
            == "Attempting to create window surface with an invalid width: 0"@,
        GlError::InvalidHeight.text()
            == "Attempting to create window surface with an invalid height: 0"@,
        GlError::Display(err).text() == "Error creating EGL display: "@ + err@,
        GlError::Configs(err).text() == "Error locating EGL configs: "@ + err@,
        GlError::NoConfig.text() == "Unable to find suitable GL config"@,
        GlError::Context(err).text() == "Error creating EGL context: "@ + err@,
        GlError::Surface(err).text() == "Error creating EGL window surface: "@ + err@,
        GlError::MakeCurrent(err).text()
            == "FemtoVG Renderer: Failed to make newly created OpenGL context current: "@ + err@,
        GlError::EnsureCurrent(err).text() == "FemtoVG: Error making context current: "@ + err@,
        GlError::SwapBuffers(err).text() == "FemtoVG: Error swapping buffers: "@ + err@,
{
}

} // verus!
