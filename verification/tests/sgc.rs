use linuxsgc::sgc::{
    advertised_inputs, first_drm_card, report_input_refusal, sgc_err, InputResource, Refusal,
    Resource, SessionError, SgcSession,
};

const CARD1: Resource = Resource::Drm { card: 1 };
const MOUSE: Resource = Resource::Input(InputResource::Mouse(0));
const KEYBOARD: Resource = Resource::Input(InputResource::Keyboard(0));
const TOUCH: Resource = Resource::Input(InputResource::Touch(3));

fn session(grants: &[bool]) -> SgcSession {
    let advertised = [Resource::Fbdev, MOUSE, CARD1, KEYBOARD];
    SgcSession::connect_and_acquire(&advertised, Ok(()), true, grants).unwrap()
}

#[test]
fn the_first_card_is_leased() {
    let advertised = [MOUSE, Resource::Drm { card: 2 }, CARD1];
    assert_eq!(first_drm_card(&advertised), Some(2));
    let session = SgcSession::connect_and_acquire(&advertised, Ok(()), false, &[]).unwrap();
    assert_eq!(session.card, 2);
    assert_eq!(session.resource, Resource::Drm { card: 2 });
    assert!(session.inputs.is_empty());
}

#[test]
fn without_a_card_there_is_no_session() {
    let error = SgcSession::connect_and_acquire(&[MOUSE], Ok(()), true, &[true]).unwrap_err();
    assert_eq!(error, SessionError::NoDrmCard);
    assert_eq!(
        error.message(),
        "the @sgc daemon advertised no DRM card; nothing to render on"
    );
}

#[test]
fn without_the_lease_there_is_no_session() {
    let refused = Err("denied".to_string());
    let error = SgcSession::connect_and_acquire(&[CARD1, MOUSE], refused, true, &[]).unwrap_err();
    assert_eq!(error, SessionError::LeaseRefused("denied".to_string()));
    assert_eq!(error.message(), "sgc: denied");
}

#[test]
fn refused_devices_are_just_not_held() {
    assert_eq!(advertised_inputs(&[CARD1, MOUSE, Resource::Fbdev, TOUCH]), vec![MOUSE, TOUCH]);
    assert_eq!(session(&[false, true]).inputs, vec![KEYBOARD]);
    assert_eq!(session(&[true, true]).inputs, vec![MOUSE, KEYBOARD]);
    assert_eq!(session(&[false, false]).inputs, vec![]);
}

#[test]
fn a_new_device_is_asked_for() {
    let mut session = session(&[false, true]);
    let pushed = [CARD1, MOUSE, KEYBOARD, TOUCH];
    assert_eq!(session.adopt_advertised(&pushed), vec![TOUCH]);
    assert_eq!(session.record_grants(&[TOUCH], &[true]), vec![TOUCH]);
    assert_eq!(session.inputs, vec![KEYBOARD, TOUCH]);
    assert_eq!(session.offered, pushed.to_vec());
}

#[test]
fn a_refused_device_is_asked_for_again_once_it_was_gone() {
    let mut session = session(&[false, true]);
    assert_eq!(session.adopt_advertised(&[CARD1, MOUSE, KEYBOARD]), vec![]);
    assert_eq!(session.adopt_advertised(&[CARD1, KEYBOARD]), vec![]);
    assert_eq!(session.adopt_advertised(&[CARD1, MOUSE, KEYBOARD]), vec![MOUSE]);
    assert_eq!(session.adopt_advertised(&[CARD1, MOUSE, KEYBOARD]), vec![]);
}

#[test]
fn all_devices_are_asked_for_when_the_display_is_back() {
    let mut session = session(&[false, true]);
    assert_eq!(session.reacquire_inputs(), vec![MOUSE]);
    session.forget_input(KEYBOARD);
    assert!(session.inputs.is_empty());
    assert_eq!(session.reacquire_inputs(), vec![MOUSE, KEYBOARD]);
}

#[test]
fn what_is_held_is_not_asked_for() {
    let session = session(&[true, false]);
    assert_eq!(session.acquire_inputs(&[MOUSE, TOUCH, CARD1, KEYBOARD]), vec![TOUCH, KEYBOARD]);
}

#[test]
fn grants_are_recorded_in_order() {
    let mut session = session(&[false, false]);
    let asked = [TOUCH, MOUSE, KEYBOARD];
    assert_eq!(session.record_grants(&asked, &[true, false, true]), vec![TOUCH, KEYBOARD]);
    assert_eq!(session.inputs, vec![TOUCH, KEYBOARD]);
}

#[test]
fn resources_are_described() {
    assert_eq!(CARD1.describe(), "Drm { card: 1 }");
    assert_eq!(Resource::Drm { card: 255 }.describe(), "Drm { card: 255 }");
    assert_eq!(Resource::Fbdev.describe(), "Fbdev");
    assert_eq!(MOUSE.describe(), "Input(Mouse(0))");
    assert_eq!(KEYBOARD.describe(), "Input(Keyboard(0))");
    assert_eq!(TOUCH.describe(), "Input(Touch(3))");
    assert_eq!(format!("{:?}", TOUCH), TOUCH.describe());
    assert!(TOUCH.is_input());
    assert!(!CARD1.is_input());
}

#[test]
fn a_denial_says_what_it_costs() {
    assert_eq!(
        report_input_refusal(KEYBOARD, &Refusal::Denied("held".to_string())),
        "linuxsgc: cannot take Input(Keyboard(0)) — the daemon denied it (held). This app will \
         receive no keyboard events for its whole lifetime: another client holds the device and \
         the daemon's policy is first-owner, which denies a newcomer rather than preempting the \
         holder. Restart this app once that client releases the device, or run @sgc with its \
         default fair-queue policy, where a newcomer preempts the holder instead"
    );
}

#[test]
fn another_refusal_is_shorter() {
    let failed = Refusal::Failed("broken pipe".to_string());
    assert_eq!(
        report_input_refusal(MOUSE, &failed),
        "linuxsgc: cannot take Input(Mouse(0)) — broken pipe. This app will receive no pointer \
         events"
    );
    assert_eq!(
        report_input_refusal(TOUCH, &failed),
        "linuxsgc: cannot take Input(Touch(3)) — broken pipe. This app will receive no touch events"
    );
    assert_eq!(
        report_input_refusal(CARD1, &failed),
        "linuxsgc: cannot take Drm { card: 1 } — broken pipe. This app will receive no input events"
    );
}

#[test]
fn errors_of_the_client_are_marked() {
    assert_eq!(sgc_err("not connected"), "sgc: not connected");
}
