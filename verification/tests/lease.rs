use linuxsgc::flags::OpenFlags;
use linuxsgc::lease::{
    flags_for_rendering, ready_for_rendering, DeviceError, PumpStep, SgcAction, SgcEvent,
    SharedState,
};
use linuxsgc::sgc::{InputResource, Resource};

const LEASE: Resource = Resource::Drm { card: 1 };
const MOUSE: Resource = Resource::Input(InputResource::Mouse(0));

fn shared(window: bool) -> SharedState<&'static str> {
    let mut shared = SharedState::new(1, "first", true);
    if window {
        shared.window_created();
    }
    shared
}

fn granted(resource: Resource) -> SgcEvent<&'static str> {
    SgcEvent::Granted { resource, fd: "second" }
}

#[test]
fn a_revoke_suspends_and_a_regrant_resumes() {
    let mut shared = shared(true);
    assert!(!shared.is_suspended());
    assert!(shared.has_window());
    assert_eq!(shared.on_sgc_event(SgcEvent::Revoked { resource: LEASE }), SgcAction::Suspended);
    assert!(shared.is_suspended());
    assert_eq!(
        shared.device_accessor(b"/dev/dri/card1").unwrap_err().message(),
        "No lease fd held for /dev/dri/card1 (revoked?): nothing to render on"
    );
    assert_eq!(shared.on_sgc_event(granted(LEASE)), SgcAction::Rebuild);
    assert!(shared.is_suspended());
    assert_eq!(shared.device_accessor(b"/dev/dri/card1"), Ok(&"second"));
    assert_eq!(shared.rebuild_finished(Ok(())), Ok(()));
    assert!(!shared.is_suspended());
}

#[test]
fn without_a_window_a_regrant_resumes_at_once() {
    let mut shared = shared(false);
    shared.on_sgc_event(SgcEvent::Revoked { resource: LEASE });
    assert_eq!(shared.on_sgc_event(granted(LEASE)), SgcAction::Resumed);
    assert!(!shared.is_suspended());
}

#[test]
fn a_failed_rebuild_leaves_rendering_suspended() {
    let mut shared = shared(true);
    shared.on_sgc_event(SgcEvent::Revoked { resource: LEASE });
    shared.on_sgc_event(granted(LEASE));
    assert_eq!(shared.rebuild_finished(Err("no mode".to_string())), Err("no mode".to_string()));
    assert!(shared.is_suspended());
}

#[test]
fn another_card_is_ignored() {
    let mut shared = shared(true);
    let other = Resource::Drm { card: 0 };
    assert_eq!(shared.on_sgc_event(SgcEvent::Revoked { resource: other }), SgcAction::Ignore);
    assert_eq!(shared.on_sgc_event(granted(other)), SgcAction::Ignore);
    assert!(!shared.is_suspended());
    assert_eq!(shared.device_accessor(b"/dev/dri/card1"), Ok(&"first"));
}

#[test]
fn input_events_do_not_touch_the_lease() {
    let mut shared = shared(true);
    assert_eq!(
        shared.on_sgc_event(SgcEvent::Revoked { resource: MOUSE }),
        SgcAction::RemoveInput(MOUSE)
    );
    assert_eq!(shared.on_sgc_event(granted(MOUSE)), SgcAction::AddInput(MOUSE, "second"));
    assert!(!shared.is_suspended());
    assert_eq!(shared.device_accessor(b"/dev/dri/card1"), Ok(&"first"));
    let mut without = SharedState::new(1, "first", false);
    assert_eq!(without.on_sgc_event(SgcEvent::Revoked { resource: MOUSE }), SgcAction::Ignore);
    assert_eq!(without.on_sgc_event(granted(MOUSE)), SgcAction::Ignore);
}

#[test]
fn other_events_are_ignored() {
    let mut shared = shared(true);
    let list = SgcEvent::Advertised { available_resources: vec![LEASE, MOUSE] };
    assert_eq!(shared.on_sgc_event(list), SgcAction::Ignore);
    assert_eq!(shared.on_sgc_event(granted(Resource::Fbdev)), SgcAction::Ignore);
    assert!(!shared.is_suspended());
}

#[test]
fn the_last_event_about_the_lease_decides() {
    let mut shared = shared(false);
    for event in [
        granted(LEASE),
        SgcEvent::Revoked { resource: LEASE },
        granted(MOUSE),
        granted(Resource::Drm { card: 7 }),
    ] {
        shared.on_sgc_event(event);
    }
    assert!(shared.is_suspended());
    assert!(shared.device_accessor(b"card1").is_err());
}

#[test]
fn nothing_but_the_leased_card_is_opened() {
    let shared = shared(true);
    assert_eq!(shared.device_accessor(b"/dev/dri/card1"), Ok(&"first"));
    let error = shared.device_accessor(b"/dev/dri/card0").unwrap_err();
    assert_eq!(
        error.message(),
        "Refusing to open /dev/dri/card0: rendering only on the sgc lease fd for card1"
    );
    let error = shared.device_accessor(b"/dev/\xff").unwrap_err();
    assert_eq!(
        error.message(),
        "Refusing to open /dev/\u{fffd}: rendering only on the sgc lease fd for card1"
    );
}

#[test]
fn a_device_is_made_blocking() {
    let host = OpenFlags { nonblock: 0x800, cloexec: 0x80000, noctty: 0x100 };
    assert_eq!(flags_for_rendering(Ok(0x8802), &host), Ok(0x8002));
    let error = flags_for_rendering(Err("EBADF".to_string()), &host).unwrap_err();
    assert_eq!(error.message(), "Error getting file descriptor flags: EBADF");
    assert_eq!(ready_for_rendering(Ok(())), Ok(()));
    let error = ready_for_rendering(Err("EPERM".to_string())).unwrap_err();
    assert_eq!(error, DeviceError::SetFlags("EPERM".to_string()));
    assert_eq!(error.message(), "Error making device fd blocking: EPERM");
}

#[test]
fn events_are_drained_one_by_one() {
    let mut shared = shared(true);
    let revoked = SgcEvent::Revoked { resource: LEASE };
    assert_eq!(shared.pump_sgc(Ok(Some(revoked))), PumpStep::Perform(SgcAction::Suspended));
    assert!(shared.is_suspended());
    assert_eq!(shared.pump_sgc(Ok(None)), PumpStep::Drained);
    assert_eq!(shared.pump_sgc(Err("gone".to_string())), PumpStep::Failed("gone".to_string()));
}

#[test]
fn draining_goes_on_after_an_action() {
    let mut shared = shared(true);
    shared.on_sgc_event(SgcEvent::Revoked { resource: LEASE });
    assert_eq!(shared.action_performed(None), PumpStep::Next);
    assert!(shared.is_suspended());
    shared.on_sgc_event(granted(LEASE));
    assert_eq!(shared.action_performed(Some(Ok(()))), PumpStep::Next);
    assert!(!shared.is_suspended());
}

#[test]
fn a_failed_rebuild_ends_the_draining() {
    let mut shared = shared(true);
    shared.on_sgc_event(SgcEvent::Revoked { resource: LEASE });
    shared.on_sgc_event(granted(LEASE));
    assert_eq!(
        shared.action_performed(Some(Err("no mode".to_string()))),
        PumpStep::Failed("no mode".to_string())
    );
    assert!(shared.is_suspended());
}
