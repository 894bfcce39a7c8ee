use linuxsgc::eventloop::{
    invoke_from_event_loop, CallbackQueue, EventLoopState, EventLoopTerminated, LoopError,
    LoopFeatures, LoopStage, LoopStep, Proxy, SGC_PUMP_INTERVAL_MS,
};

const SESSION: LoopFeatures = LoopFeatures { inputs: true, session: true };
const INJECTED: LoopFeatures = LoopFeatures { inputs: false, session: false };

/// The stages from the start up to and including `last`, all of them succeeding.
fn run(
    state: &mut EventLoopState<&'static str>,
    features: LoopFeatures,
    window: bool,
    last: LoopStage,
) -> Vec<LoopStage> {
    let mut stages = vec![];
    let mut step = state.run_event_loop();
    while let LoopStep::Take(stage) = step {
        stages.push(stage);
        if stage == last {
            break;
        }
        if stage == LoopStage::CreateLoop {
            state.loop_created("signal");
        }
        step = state.advance(features, stage, Ok(()), window);
    }
    stages
}

#[test]
fn a_session_loop_has_its_stages() {
    let mut state = EventLoopState::new();
    assert_eq!(
        run(&mut state, SESSION, true, LoopStage::Dispatch),
        vec![
            LoopStage::CreateLoop,
            LoopStage::InitInput,
            LoopStage::DrainSession,
            LoopStage::InsertUserEvents,
            LoopStage::InsertPump,
            LoopStage::UpdateTimers,
            LoopStage::InvokeCallbacks,
            LoopStage::Render,
            LoopStage::Dispatch,
        ]
    );
    assert_eq!(
        state.advance(SESSION, LoopStage::Dispatch, Ok(()), true),
        LoopStep::Take(LoopStage::UpdateTimers)
    );
}

#[test]
fn an_injected_loop_runs_hooks() {
    let mut state = EventLoopState::new();
    assert_eq!(
        run(&mut state, INJECTED, false, LoopStage::Dispatch),
        vec![
            LoopStage::CreateLoop,
            LoopStage::RunHooks,
            LoopStage::InsertUserEvents,
            LoopStage::UpdateTimers,
            LoopStage::InvokeCallbacks,
            LoopStage::Dispatch,
        ]
    );
}

#[test]
fn a_loop_ends_when_asked() {
    let mut state = EventLoopState::new();
    run(&mut state, SESSION, true, LoopStage::Dispatch);
    assert_eq!(state.proxy.quit_event_loop(), Ok(&"signal"));
    assert_eq!(
        state.advance(SESSION, LoopStage::Dispatch, Ok(()), true),
        LoopStep::End(Ok(()))
    );
}

#[test]
fn a_fatal_error_takes_precedence() {
    let mut state = EventLoopState::new();
    run(&mut state, SESSION, true, LoopStage::Dispatch);
    assert_eq!(state.proxy.quit_event_loop(), Ok(&"signal"));
    state.pump_failed("daemon gone".to_string());
    let end = state.advance(SESSION, LoopStage::Dispatch, Ok(()), true);
    let fatal = LoopError::Fatal("daemon gone".to_string());
    assert_eq!(fatal.message(), "daemon gone");
    assert_eq!(end, LoopStep::End(Err(fatal)));
    assert_eq!(state.fatal, None);
}

#[test]
fn a_loop_is_not_entered_again() {
    let mut state = EventLoopState::new();
    run(&mut state, SESSION, true, LoopStage::Dispatch);
    assert_eq!(
        run(&mut state, SESSION, true, LoopStage::Dispatch),
        vec![LoopStage::CreateLoop, LoopStage::InitInput]
    );
    assert_eq!(
        LoopError::ReEntered.message(),
        "Re-entering the linuxsgc event loop is currently not supported"
    );
}

#[test]
fn a_quit_before_the_first_round_is_dropped() {
    let mut state = EventLoopState::new();
    run(&mut state, SESSION, true, LoopStage::InsertPump);
    assert_eq!(state.proxy.quit_event_loop(), Ok(&"signal"));
    assert!(state.proxy.quit_loop);
    state.advance(SESSION, LoopStage::InsertPump, Ok(()), true);
    assert!(!state.proxy.quit_loop);
}

#[test]
fn there_is_nothing_to_quit_before_the_loop() {
    let mut proxy = Proxy::<&str>::new();
    assert_eq!(proxy.quit_event_loop(), Err(EventLoopTerminated));
    assert!(!proxy.quit_loop);
}

#[test]
fn each_stage_has_its_error() {
    for (stage, text) in [
        (LoopStage::CreateLoop, "Error creating event loop: x"),
        (LoopStage::InitInput, "Error registering libinput event source: x"),
        (LoopStage::DrainSession, "x"),
        (LoopStage::RunHooks, "x"),
        (LoopStage::InsertUserEvents, "Error registering user event channel source: x"),
        (LoopStage::InsertPump, "Error registering sgc pump source: x"),
        (LoopStage::Render, "x"),
        (LoopStage::Dispatch, "Error dispatch events: x"),
    ] {
        let mut state = EventLoopState::<&str>::new();
        match state.advance(SESSION, stage, Err("x".to_string()), true) {
            LoopStep::End(Err(err)) => assert_eq!(err.message(), text),
            other => panic!("{other:?}"),
        }
    }
}

#[test]
fn requests_are_taken_while_the_loop_is_there() {
    assert_eq!(invoke_from_event_loop(true), Ok(()));
    assert_eq!(invoke_from_event_loop(false), Err(EventLoopTerminated));
}

#[test]
fn requests_are_handled_once_and_in_order() {
    let mut queue = CallbackQueue::new();
    queue.remember(1);
    queue.remember(2);
    assert_eq!(queue.take(), vec![1, 2]);
    assert_eq!(queue.take(), vec![]);
    queue.remember(3);
    assert_eq!(queue.take(), vec![3]);
}

#[test]
fn the_session_is_looked_at_often() {
    assert_eq!(SGC_PUMP_INTERVAL_MS, 50);
}
