//! The event loop: how it starts, what one round of it does, and how it ends.
//!
//! `S` is the type of the signal that wakes the loop up.

use vstd::prelude::*;

verus! {

/// How many milliseconds pass between two looks at the controller's events.
pub const SGC_PUMP_INTERVAL_MS: u64 = 50;

/// The event loop is not there to take a request.
#[derive(Clone, Copy, PartialEq, Eq, Structural, Debug)]
pub struct EventLoopTerminated;

/// A step of the event loop. The ones up to [`LoopStage::InsertPump`] are taken
/// once, the rest over and over.
#[derive(Clone, Copy, PartialEq, Eq, Structural, Debug)]
pub enum LoopStage {
    /// Create the loop, and the signal that wakes it up.
    CreateLoop,
    /// Have the input devices read from within the loop.
    InitInput,
    /// Handle what the controller has said since the session began.
    DrainSession,
    /// Run the hooks that the application has registered.
    RunHooks,
    /// Have the requests of other threads arrive in the loop.
    InsertUserEvents,
    /// Have the controller's events looked at regularly.
    InsertPump,
    /// Bring timers and animations up to date.
    UpdateTimers,
    /// Do what other threads have requested.
    InvokeCallbacks,
    /// Render the window, if it needs it.
    Render,
    /// Wait for events and dispatch them.
    Dispatch,
}

/// What comes next.
#[derive(PartialEq, Eq, Debug)]
pub enum LoopStep {
    /// Take this step, and report how it went.
    Take(LoopStage),
    /// The loop is over.
    End(Result<(), LoopError>),
}

/// Why the event loop ended.
#[derive(PartialEq, Eq, Debug)]
pub enum LoopError {
    /// A step failed.
    Stage(LoopStage, String),
    /// The loop was run before.
    ReEntered,
    /// The session was lost, or the display stack could not be rebuilt.
    Fatal(String),
}

/// What a step's error is introduced with. An error that says it all stands
/// alone.
pub open spec fn stage_text(stage: LoopStage) -> Seq<char> {
    match stage {
        LoopStage::CreateLoop => "Error creating event loop: "@,
        LoopStage::InitInput => "Error registering libinput event source: "@,
        LoopStage::InsertUserEvents => "Error registering user event channel source: "@,
        LoopStage::InsertPump => "Error registering sgc pump source: "@,
        LoopStage::Dispatch => "Error dispatch events: "@,
        _ => ""@,
    }
}

impl LoopError {
    /// The text of the error.
    pub open spec fn text(self) -> Seq<char> {
        match self {
            LoopError::Stage(stage, err) => stage_text(stage) + err@,
            LoopError::ReEntered =>
            "Re-entering the linuxsgc event loop is currently not supported"@,
            LoopError::Fatal(err) => err@,
        }
    }

    /// The error as text.
    pub fn message(&self) -> (message: String)
        ensures
            message@ == self.text(),
    {
        match self {
            LoopError::Stage(stage, err) => {
                let before: &str = match stage {
                    LoopStage::CreateLoop => "Error creating event loop: ",
                    LoopStage::InitInput => "Error registering libinput event source: ",
                    LoopStage::InsertUserEvents => "Error registering user event channel source: ",
                    LoopStage::InsertPump => "Error registering sgc pump source: ",
                    LoopStage::Dispatch => "Error dispatch events: ",
                    _ => "",
                };
                let mut message = String::from_str(before);
                message.append(err.as_str());
                message
            },
            LoopError::ReEntered => String::from_str(
                "Re-entering the linuxsgc event loop is currently not supported",
            ),
            LoopError::Fatal(err) => String::from_str(err.as_str()),
        }
    }
}

/// What makes one backend's event loop different from another's.
#[derive(Clone, Copy, PartialEq, Eq, Structural, Debug)]
pub struct LoopFeatures {
    /// Input devices are read.
    pub inputs: bool,
    /// The backend has a session with the controller; else the application brings
    /// its own hooks.
    pub session: bool,
}

/// How the rest of a program reaches the event loop.
pub struct Proxy<S> {
    /// Wakes the loop up, once there is one.
    pub loop_signal: Option<S>,
    /// The loop is asked to end.
    pub quit_loop: bool,
}

impl<S> Proxy<S> {
    /// A proxy of a loop that has not been created yet.
    pub fn new() -> (proxy: Proxy<S>)
        ensures
            proxy.loop_signal is None,
            !proxy.quit_loop,
    {
        Proxy { loop_signal: None, quit_loop: false }
    }

    /// Asks the loop to end, and returns the signal to wake it up with. There is
    /// nothing to ask before the loop is created.
    pub fn quit_event_loop(&mut self) -> (wakeup: Result<&S, EventLoopTerminated>)
        ensures
            final(self).loop_signal == old(self).loop_signal,
            match wakeup {
                Ok(signal) => {
                    &&& old(self).loop_signal == Some(*signal)
                    &&& final(self).quit_loop
                },
                Err(_) => {
                    &&& old(self).loop_signal is None
                    &&& final(self).quit_loop == old(self).quit_loop
                },
            },
    {
        if self.loop_signal.is_some() {
            self.quit_loop = true;
        }
        match &self.loop_signal {
            Some(signal) => Ok(signal),
            None => Err(EventLoopTerminated),
        }
    }
}

/// What a request to run something in the loop returns: `sent` says whether the
/// loop still takes requests.
pub fn invoke_from_event_loop(sent: bool) -> (result: Result<(), EventLoopTerminated>)
    ensures
        result is Ok <==> sent,
{
    if sent {
        Ok(())
    } else {
        Err(EventLoopTerminated)
    }
}

/// The event loop of a backend.
pub struct EventLoopState<S> {
    /// How the rest of the program reaches the loop.
    pub proxy: Proxy<S>,
    /// Requests of other threads have not been claimed by a loop yet.
    pub receiver: bool,
    /// An error that ends the loop.
    pub fatal: Option<String>,
}

/// The step that the loop starts with, or goes on with after a round.
pub open spec fn round_start<S>(state: EventLoopState<S>) -> LoopStep {
    if !state.proxy.quit_loop {
        LoopStep::Take(LoopStage::UpdateTimers)
    } else {
        match state.fatal {
            Some(err) => LoopStep::End(Err(LoopError::Fatal(err))),
            None => LoopStep::End(Ok(())),
        }
    }
}

/// What comes once input is set up, if it is at all.
pub open spec fn after_input<S>(state: EventLoopState<S>, features: LoopFeatures) -> LoopStep {
    if !state.receiver {
        LoopStep::End(Err(LoopError::ReEntered))
    } else if features.session {
        LoopStep::Take(LoopStage::DrainSession)
    } else {
        LoopStep::Take(LoopStage::RunHooks)
    }
}

/// The step after `stage` has succeeded. `window` says whether there is a window.
pub open spec fn step_after_success<S>(
    state: EventLoopState<S>,
    features: LoopFeatures,
    stage: LoopStage,
    window: bool,
) -> LoopStep {
    match stage {
        LoopStage::CreateLoop => if features.inputs {
            LoopStep::Take(LoopStage::InitInput)
        } else {
            after_input(state, features)
        },
        LoopStage::InitInput => after_input(state, features),
        LoopStage::DrainSession | LoopStage::RunHooks => LoopStep::Take(
            LoopStage::InsertUserEvents,
        ),
        LoopStage::InsertUserEvents => if features.session {
            LoopStep::Take(LoopStage::InsertPump)
        } else {
            LoopStep::Take(LoopStage::UpdateTimers)
        },
        LoopStage::InsertPump => LoopStep::Take(LoopStage::UpdateTimers),
        LoopStage::UpdateTimers => LoopStep::Take(LoopStage::InvokeCallbacks),
        LoopStage::InvokeCallbacks => if window {
            LoopStep::Take(LoopStage::Render)
        } else {
            LoopStep::Take(LoopStage::Dispatch)
        },
        LoopStage::Render => LoopStep::Take(LoopStage::Dispatch),
        LoopStage::Dispatch => round_start(state),
    }
}

/// The requests of other threads are claimed at this stage.
pub open spec fn claims_receiver(features: LoopFeatures, stage: LoopStage) -> bool {
    if features.inputs {
        stage == LoopStage::InitInput
    } else {
        stage == LoopStage::CreateLoop
    }
}

/// The last step before the first round.
pub open spec fn is_last_setup(features: LoopFeatures, stage: LoopStage) -> bool {
    if features.session {
        stage == LoopStage::InsertPump
    } else {
        stage == LoopStage::InsertUserEvents
    }
}

/// The state after `stage` has succeeded. A request to end that came before the
/// first round is dropped then.
pub open spec fn state_after_success<S>(
    state: EventLoopState<S>,
    features: LoopFeatures,
    stage: LoopStage,
) -> EventLoopState<S> {
    if claims_receiver(features, stage) {
        EventLoopState { receiver: false, ..state }
    } else if is_last_setup(features, stage) {
        EventLoopState { proxy: Proxy { quit_loop: false, ..state.proxy }, ..state }
    } else if stage == LoopStage::Dispatch && state.proxy.quit_loop {
        EventLoopState { fatal: None, ..state }
    } else {
        state
    }
}

impl<S> EventLoopState<S> {
    /// The state before the loop runs.
    pub fn new() -> (state: EventLoopState<S>)
        ensures
            state.proxy.loop_signal is None,
            !state.proxy.quit_loop,
            state.receiver,
            state.fatal is None,
    {
        EventLoopState { proxy: Proxy::new(), receiver: true, fatal: None }
    }

    /// Starts to run the loop.
    pub fn run_event_loop(&self) -> (step: LoopStep)
        ensures
            step == LoopStep::Take(LoopStage::CreateLoop),
    {
        LoopStep::Take(LoopStage::CreateLoop)
    }

    /// The loop was created and is reached by this signal from now on.
    pub fn loop_created(&mut self, signal: S)
        ensures
            *final(self) == (EventLoopState {
                proxy: Proxy { loop_signal: Some(signal), ..old(self).proxy },
                ..*old(self)
            }),
    {
        self.proxy.loop_signal = Some(signal);
    }

    /// Goes on after a step and how it went. `window` says whether there is a
    /// window to render. A step that fails ends the loop.
    pub fn advance(
        &mut self,
        features: LoopFeatures,
        stage: LoopStage,
        outcome: Result<(), String>,
        window: bool,
    ) -> (step: LoopStep)
        ensures
            match outcome {
                Ok(_) => {
                    &&& step == step_after_success(*old(self), features, stage, window)
                    &&& *final(self) == state_after_success(*old(self), features, stage)
                },
                Err(err) => {
                    &&& step == LoopStep::End(Err(LoopError::Stage(stage, err)))
                    &&& *final(self) == *old(self)
                },
            },
    {
        if let Err(err) = outcome {
            return LoopStep::End(Err(LoopError::Stage(stage, err)));
        }
        match stage {
            LoopStage::CreateLoop => if features.inputs {
                LoopStep::Take(LoopStage::InitInput)
            } else {
                self.claim_receiver(features)
            },
            LoopStage::InitInput => if features.inputs {
                self.claim_receiver(features)
            } else if !self.receiver {
                LoopStep::End(Err(LoopError::ReEntered))
            } else if features.session {
                LoopStep::Take(LoopStage::DrainSession)
            } else {
                LoopStep::Take(LoopStage::RunHooks)
            },
            LoopStage::DrainSession | LoopStage::RunHooks => LoopStep::Take(
                LoopStage::InsertUserEvents,
            ),
            LoopStage::InsertUserEvents => if features.session {
                LoopStep::Take(LoopStage::InsertPump)
            } else {
                self.proxy.quit_loop = false;
                LoopStep::Take(LoopStage::UpdateTimers)
            },
            LoopStage::InsertPump => {
                if features.session {
                    self.proxy.quit_loop = false;
                }
                LoopStep::Take(LoopStage::UpdateTimers)
            },
            LoopStage::UpdateTimers => LoopStep::Take(LoopStage::InvokeCallbacks),
            LoopStage::InvokeCallbacks => if window {
                LoopStep::Take(LoopStage::Render)
            } else {
                LoopStep::Take(LoopStage::Dispatch)
            },
            LoopStage::Render => LoopStep::Take(LoopStage::Dispatch),
            LoopStage::Dispatch => if !self.proxy.quit_loop {
                LoopStep::Take(LoopStage::UpdateTimers)
            } else {
                match self.fatal.take() {
                    Some(err) => LoopStep::End(Err(LoopError::Fatal(err))),
                    None => LoopStep::End(Ok(())),
                }
            },
        }
    }

    /// Claims the requests of other threads for this loop, once.
    fn claim_receiver(&mut self, features: LoopFeatures) -> (step: LoopStep)
        ensures
            step == after_input(*old(self), features),
            *final(self) == (EventLoopState { receiver: false, ..*old(self) }),
    {
        if !self.receiver {
            return LoopStep::End(Err(LoopError::ReEntered));
        }
        self.receiver = false;
        if features.session {
            LoopStep::Take(LoopStage::DrainSession)
        } else {
            LoopStep::Take(LoopStage::RunHooks)
        }
    }

    /// The session was lost, or the display stack could not be rebuilt: the loop
    /// ends with this error. It has to be woken up for that.
    pub fn pump_failed(&mut self, err: String)
        ensures
            *final(self) == (EventLoopState {
                proxy: Proxy { quit_loop: true, ..old(self).proxy },
                fatal: Some(err),
                ..*old(self)
            }),
    {
        self.fatal = Some(err);
        self.proxy.quit_loop = true;
    }
}

/// A fatal error takes precedence over a clean end: a loop that is asked to end
/// does so after the round, with the error if there is one.
pub proof fn a_fatal_error_takes_precedence<S>(
    state: EventLoopState<S>,
    features: LoopFeatures,
    window: bool,
)
    requires
        state.proxy.quit_loop,
    ensures
        state.fatal matches Some(err) ==> step_after_success(
            state,
            features,
            LoopStage::Dispatch,
            window,
        ) == LoopStep::End(Err(LoopError::Fatal(err))),
        state.fatal is None ==> step_after_success(state, features, LoopStage::Dispatch, window)
            == LoopStep::End(Ok(())),
        state_after_success(state, features, LoopStage::Dispatch).fatal is None,
{
}

/// A lost session ends the loop with its error after the round that it was
/// noticed in.
pub proof fn a_lost_session_ends_the_loop<S>(
    state: EventLoopState<S>,
    features: LoopFeatures,
    err: String,
    window: bool,
)
    ensures
        ({
            let lost = EventLoopState {
                proxy: Proxy { quit_loop: true, ..state.proxy },
                fatal: Some(err),
                ..state
            };
            step_after_success(lost, features, LoopStage::Dispatch, window) == LoopStep::End(
                Err(LoopError::Fatal(err)),
            )
        }),
{
}

/// Nothing but a request to end, or an error, ends the rounds.
pub proof fn rounds_go_on_until_asked_to_end<S>(
    state: EventLoopState<S>,
    features: LoopFeatures,
    stage: LoopStage,
    window: bool,
)
    requires
        !state.proxy.quit_loop,
        state.receiver,
    ensures
        step_after_success(state, features, stage, window) is Take,
{
}

/// In a round, timers are brought up to date before requests of other threads are
/// handled, those before the window is rendered, and that before the loop waits.
pub proof fn a_round_has_its_order<S>(
    state: EventLoopState<S>,
    features: LoopFeatures,
    window: bool,
)
    ensures
        step_after_success(state, features, LoopStage::UpdateTimers, window) == LoopStep::Take(
            LoopStage::InvokeCallbacks,
        ),
        step_after_success(state, features, LoopStage::InvokeCallbacks, true) == LoopStep::Take(
            LoopStage::Render,
        ),
        step_after_success(state, features, LoopStage::InvokeCallbacks, false) == LoopStep::Take(
            LoopStage::Dispatch,
        ),
        step_after_success(state, features, LoopStage::Render, window) == LoopStep::Take(
            LoopStage::Dispatch,
        ),
        !state.proxy.quit_loop ==> step_after_success(
            state,
            features,
            LoopStage::Dispatch,
            window,
        ) == LoopStep::Take(LoopStage::UpdateTimers),
        state_after_success(state, features, LoopStage::UpdateTimers) == state,
        state_after_success(state, features, LoopStage::InvokeCallbacks) == state,
        state_after_success(state, features, LoopStage::Render) == state,
{
}

/// The state after a number of steps that have all succeeded.
pub open spec fn state_after_stages<S>(
    state: EventLoopState<S>,
    features: LoopFeatures,
    stages: Seq<LoopStage>,
) -> EventLoopState<S>
    decreases stages.len(),
{
    if stages.len() == 0 {
        state
    } else {
        state_after_success(
            state_after_stages(state, features, stages.drop_last()),
            features,
            stages.last(),
        )
    }
}

/// The requests of other threads are claimed by the first run of the loop, so
/// that every later one is refused.
pub proof fn the_loop_runs_once<S>(
    state: EventLoopState<S>,
    features: LoopFeatures,
    stages: Seq<LoopStage>,
    window: bool,
)
    requires
        exists|i: int| 0 <= i < stages.len() && claims_receiver(features, #[trigger] stages[i]),
    ensures
        ({
            let later = state_after_stages(state, features, stages);
            let claim = if features.inputs {
                LoopStage::InitInput
            } else {
                LoopStage::CreateLoop
            };
            &&& !later.receiver
            &&& step_after_success(later, features, claim, window) == LoopStep::End(
                Err(LoopError::ReEntered),
            )
        }),
    decreases stages.len(),
{
    let rest = stages.drop_last();
    let i = choose|i: int| 0 <= i < stages.len() && claims_receiver(features, #[trigger] stages[i]);
    if i < rest.len() {
        assert(claims_receiver(features, rest[i]));
        the_loop_runs_once(state, features, rest, window);
    } else {
        assert(stages[i] == stages.last());
    }
}

/// The requests of other threads, until they are handled.
pub struct CallbackQueue<C> {
    callbacks: Vec<C>,
}

impl<C> View for CallbackQueue<C> {
    type V = Seq<C>;

    closed spec fn view(&self) -> Seq<C> {
        self.callbacks@
    }
}

impl<C> CallbackQueue<C> {
    /// No requests.
    pub fn new() -> (queue: CallbackQueue<C>)
        ensures
            queue@ == Seq::<C>::empty(),
    {
        CallbackQueue { callbacks: Vec::new() }
    }

    /// Remembers a request; it is handled after those that came before it.
    pub fn remember(&mut self, callback: C)
        ensures
            final(self)@ == old(self)@.push(callback),
    {
        self.callbacks.push(callback);
    }

    /// The requests to handle now, each of them once, in the order they came in.
    pub fn take(&mut self) -> (callbacks: Vec<C>)
        ensures
            callbacks@ == old(self)@,
            final(self)@ == Seq::<C>::empty(),
    {
        let mut callbacks: Vec<C> = Vec::new();
        std::mem::swap(&mut callbacks, &mut self.callbacks);
        callbacks
    }
}

/// The loop is set up in order: it is created, input devices are read where there
/// are any, then the session is drained or the application's hooks are run, then
/// requests of other threads arrive, and with a session the controller's events
/// are looked at. Then come the rounds, whatever else is the case.
pub proof fn the_loop_is_set_up_in_order<S>(
    state: EventLoopState<S>,
    features: LoopFeatures,
    window: bool,
)
    requires
        state.receiver,
    ensures
        ({
            let next = |stage: LoopStage| step_after_success(state, features, stage, window);
            let first = if features.session {
                LoopStep::Take(LoopStage::DrainSession)
            } else {
                LoopStep::Take(LoopStage::RunHooks)
            };
            &&& features.inputs ==> next(LoopStage::CreateLoop) == LoopStep::Take(
                LoopStage::InitInput,
            )
            &&& features.inputs ==> next(LoopStage::InitInput) == first
            &&& !features.inputs ==> next(LoopStage::CreateLoop) == first
            &&& next(LoopStage::DrainSession) == LoopStep::Take(LoopStage::InsertUserEvents)
            &&& next(LoopStage::RunHooks) == LoopStep::Take(LoopStage::InsertUserEvents)
            &&& features.session ==> next(LoopStage::InsertUserEvents) == LoopStep::Take(
                LoopStage::InsertPump,
            )
            &&& !features.session ==> next(LoopStage::InsertUserEvents) == LoopStep::Take(
                LoopStage::UpdateTimers,
            )
            &&& next(LoopStage::InsertPump) == LoopStep::Take(LoopStage::UpdateTimers)
        }),
{
}

/// A loop whose requests were claimed before is refused, once input is set up, and
/// nothing of the session or the hooks is touched.
pub proof fn a_second_run_is_refused<S>(
    state: EventLoopState<S>,
    features: LoopFeatures,
    window: bool,
)
    requires
        !state.receiver,
    ensures
        features.inputs ==> step_after_success(state, features, LoopStage::CreateLoop, window)
            == LoopStep::Take(LoopStage::InitInput),
        features.inputs ==> step_after_success(state, features, LoopStage::InitInput, window)
            == LoopStep::End(Err(LoopError::ReEntered)),
        !features.inputs ==> step_after_success(state, features, LoopStage::CreateLoop, window)
            == LoopStep::End(Err(LoopError::ReEntered)),
{
}

/// A step that succeeds changes just what it is for: the signal always stays, the
/// requests are claimed where input is set up, a request to end is dropped by the
/// last step before the rounds and kept by every other, and an error that ends the
/// loop is kept until it does.
pub proof fn each_step_changes_just_its_part<S>(
    state: EventLoopState<S>,
    features: LoopFeatures,
    stage: LoopStage,
)
    ensures
        ({
            let after = state_after_success(state, features, stage);
            let claim = if features.inputs {
                LoopStage::InitInput
            } else {
                LoopStage::CreateLoop
            };
            let last = if features.session {
                LoopStage::InsertPump
            } else {
                LoopStage::InsertUserEvents
            };
            &&& after.proxy.loop_signal == state.proxy.loop_signal
            &&& after.receiver == (state.receiver && stage != claim)
            &&& after.proxy.quit_loop == (state.proxy.quit_loop && stage != last)
            &&& after.fatal == (if stage == LoopStage::Dispatch && state.proxy.quit_loop {
                None
            } else {
                state.fatal
            })
        }),
{
}

/// Rounds begin again after the loop has waited, unless it is asked to end, and
/// then it does at once: there is no other end to a round.
pub proof fn a_round_ends_when_asked<S>(
    state: EventLoopState<S>,
    features: LoopFeatures,
    window: bool,
)
    ensures
        ({
            let step = step_after_success(state, features, LoopStage::Dispatch, window);
            &&& step is End <==> state.proxy.quit_loop
            &&& !state.proxy.quit_loop ==> step == LoopStep::Take(LoopStage::UpdateTimers)
        }),
{
}

/// The claim and the last step of setting up are each one step, by what the loop
/// deals with.
pub proof fn setting_up_has_one_claim_and_one_end(features: LoopFeatures, stage: LoopStage)
    ensures
        claims_receiver(features, stage) <==> (if features.inputs {
            stage == LoopStage::InitInput
        } else {
            stage == LoopStage::CreateLoop
        }),
        is_last_setup(features, stage) <==> (if features.session {
            stage == LoopStage::InsertPump
        } else {
            stage == LoopStage::InsertUserEvents
        }),
{
}

/// The error that ends the loop is told as it is, with the step that failed where
/// it does not say so itself.
pub proof fn the_end_of_the_loop_is_told(err: String)
    ensures
        LoopError::Fatal(err).text() == err@,
        LoopError::ReEntered.text()
            == "Re-entering the linuxsgc event loop is currently not supported"@,
        LoopError::Stage(LoopStage::CreateLoop, err).text() == "Error creating event loop: "@
            + err@,
        LoopError::Stage(LoopStage::InitInput, err).text()
            == "Error registering libinput event source: "@ + err@,
        LoopError::Stage(LoopStage::InsertUserEvents, err).text()
            == "Error registering user event channel source: "@ + err@,
        LoopError::Stage(LoopStage::InsertPump, err).text()
            == "Error registering sgc pump source: "@ + err@,
        LoopError::Stage(LoopStage::Dispatch, err).text() == "Error dispatch events: "@ + err@,
        LoopError::Stage(LoopStage::DrainSession, err).text() == err@,
        LoopError::Stage(LoopStage::RunHooks, err).text() == err@,
        LoopError::Stage(LoopStage::UpdateTimers, err).text() == err@,
        LoopError::Stage(LoopStage::InvokeCallbacks, err).text() == err@,
        LoopError::Stage(LoopStage::Render, err).text() == err@,
{
    reveal_strlit("");
    assert(""@ + err@ =~= err@);
}

} // verus!
