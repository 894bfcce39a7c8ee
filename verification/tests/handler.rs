use linuxsgc::handler::{
    pointer_button, InputEvent, LibInputHandler, PointerEventButton, TouchPhase, WindowCommand,
};

type Position = (i32, i32);

const ORIGIN: Position = (0, 0);

fn handle(
    handler: &mut LibInputHandler<Position>,
    event: InputEvent<Position>,
) -> Vec<WindowCommand<Position>> {
    handler.process_event(event, false, ORIGIN)
}

fn key(sym: u32, pressed: bool, control: bool, alt: bool) -> InputEvent<Position> {
    InputEvent::Key { sym, utf32: 'a' as u32, pressed, control, alt }
}

#[test]
fn buttons_have_the_kernels_numbers() {
    assert_eq!(pointer_button(0x110), PointerEventButton::Left);
    assert_eq!(pointer_button(0x111), PointerEventButton::Right);
    assert_eq!(pointer_button(0x112), PointerEventButton::Middle);
    assert_eq!(pointer_button(0x113), PointerEventButton::Other);
    assert_eq!(pointer_button(0x115), PointerEventButton::Forward);
    assert_eq!(pointer_button(0x116), PointerEventButton::Back);
}

#[test]
fn a_button_acts_where_the_pointer_is() {
    let mut handler = LibInputHandler::init();
    assert_eq!(
        handle(&mut handler, InputEvent::Button { button: 0x110, pressed: true }),
        vec![WindowCommand::PointerPressed {
            position: ORIGIN,
            button: PointerEventButton::Left
        }]
    );
    assert_eq!(
        handle(&mut handler, InputEvent::Motion { position: (7, 8) }),
        vec![WindowCommand::PointerMoved { position: (7, 8) }]
    );
    assert_eq!(handle(&mut handler, InputEvent::Other), vec![]);
    assert_eq!(
        handle(&mut handler, InputEvent::Button { button: 0x111, pressed: false }),
        vec![WindowCommand::PointerReleased {
            position: (7, 8),
            button: PointerEventButton::Right
        }]
    );
    assert_eq!(handler.mouse_position(), Some((7, 8)));
}

#[test]
fn the_first_motion_starts_at_the_centre() {
    let mut handler = LibInputHandler::init();
    assert_eq!(handler.mouse_position(), None);
    assert_eq!(handler.motion_start((50, 40)), (50, 40));
    handle(&mut handler, InputEvent::Motion { position: (1, 2) });
    assert_eq!(handler.motion_start((50, 40)), (1, 2));
}

#[test]
fn a_finger_leaves_where_it_was_seen_last() {
    let mut handler = LibInputHandler::init();
    assert_eq!(
        handle(&mut handler, InputEvent::TouchDown { slot: Some(2), position: (1, 1) }),
        vec![WindowCommand::Touch { slot: 2, position: (1, 1), phase: TouchPhase::Started }]
    );
    assert_eq!(
        handle(&mut handler, InputEvent::TouchMotion { slot: Some(2), position: (2, 2) }),
        vec![WindowCommand::Touch { slot: 2, position: (2, 2), phase: TouchPhase::Moved }]
    );
    handle(&mut handler, InputEvent::TouchDown { slot: None, position: (9, 9) });
    handle(&mut handler, InputEvent::Motion { position: (5, 5) });
    assert_eq!(
        handle(&mut handler, InputEvent::TouchUp { slot: Some(2) }),
        vec![WindowCommand::Touch { slot: 2, position: (2, 2), phase: TouchPhase::Ended }]
    );
    assert_eq!(
        handle(&mut handler, InputEvent::TouchCancel { slot: Some(0) }),
        vec![WindowCommand::Touch { slot: 0, position: (9, 9), phase: TouchPhase::Cancelled }]
    );
    assert_eq!(
        handle(&mut handler, InputEvent::TouchUp { slot: Some(2) }),
        vec![WindowCommand::Touch { slot: 2, position: ORIGIN, phase: TouchPhase::Ended }]
    );
}

#[test]
fn five_fingers_leave_where_they_were_seen_last() {
    let mut handler = LibInputHandler::init();
    for slot in [7u32, 0, 3, 9, 1] {
        let position = (slot as i32, 1);
        handle(&mut handler, InputEvent::TouchDown { slot: Some(slot), position });
    }
    handle(&mut handler, InputEvent::TouchUp { slot: Some(3) });
    handle(&mut handler, InputEvent::TouchDown { slot: Some(4), position: (4, 1) });
    handle(&mut handler, InputEvent::TouchMotion { slot: Some(9), position: (9, 2) });
    for (slot, position) in [(7, (7, 1)), (0, (0, 1)), (4, (4, 1)), (9, (9, 2)), (1, (1, 1))] {
        assert_eq!(
            handle(&mut handler, InputEvent::TouchUp { slot: Some(slot as u32) }),
            vec![WindowCommand::Touch { slot, position, phase: TouchPhase::Ended }]
        );
    }
}

#[test]
fn large_slot_numbers_wrap() {
    let mut handler = LibInputHandler::init();
    assert_eq!(
        handle(&mut handler, InputEvent::TouchDown { slot: Some(u32::MAX), position: (1, 1) }),
        vec![WindowCommand::Touch { slot: -1, position: (1, 1), phase: TouchPhase::Started }]
    );
}

#[test]
fn keys_are_reported_by_their_text() {
    let mut handler = LibInputHandler::init();
    assert_eq!(
        handle(&mut handler, key(0x61, true, false, false)),
        vec![WindowCommand::KeyPressed { text: 'a' }]
    );
    assert_eq!(
        handle(&mut handler, key(0x61, false, false, false)),
        vec![WindowCommand::KeyReleased { text: 'a' }]
    );
    let no_text =
        InputEvent::Key { sym: 0x61, utf32: 0xdfff, pressed: true, control: false, alt: false };
    assert_eq!(handle(&mut handler, no_text), vec![]);
}

#[test]
fn the_quit_combination_ends_the_loop_and_is_reported() {
    let mut handler = LibInputHandler::init();
    assert_eq!(
        handle(&mut handler, key(0xff08, true, true, true)),
        vec![WindowCommand::QuitEventLoop, WindowCommand::KeyPressed { text: '\u{8}' }]
    );
    assert_eq!(
        handle(&mut handler, key(0xffff, true, true, true)),
        vec![WindowCommand::QuitEventLoop, WindowCommand::KeyPressed { text: '\u{7f}' }]
    );
    assert_eq!(
        handle(&mut handler, key(0xff08, false, true, true)),
        vec![WindowCommand::KeyReleased { text: '\u{8}' }]
    );
}

#[test]
fn a_consumed_event_is_passed_over() {
    let mut handler = LibInputHandler::init();
    let motion = InputEvent::Motion { position: (3, 3) };
    assert_eq!(handler.process_event(motion, true, ORIGIN), vec![]);
    assert_eq!(handler.mouse_position(), None);
}
