//! What the window is told of an input event.

use vstd::prelude::*;

use crate::keys::{is_quit_combination, key_text, map_key_sym, quits};
use crate::touch::{
    empty_touch_table, free_entry, last_position, recorded_positions_are_replayed, set_touch_pos,
    table_valid, take_touch_pos, taken_positions_are_gone, with_position, without_position,
    TouchTable, MAX_FINGERS,
};

verus! {

/// A button of a pointer device.
#[derive(Clone, Copy, PartialEq, Eq, Structural, Debug)]
pub enum PointerEventButton {
    Left,
    Right,
    Middle,
    Back,
    Forward,
    Other,
}

/// What a finger on a touch screen does.
#[derive(Clone, Copy, PartialEq, Eq, Structural, Debug)]
pub enum TouchPhase {
    Started,
    Moved,
    Ended,
    Cancelled,
}

/// An event of an input device. Positions are in window coordinates already.
#[derive(PartialEq, Eq, Debug)]
pub enum InputEvent<P> {
    /// The pointer moved to this position.
    Motion { position: P },
    /// A pointer button, by the kernel's number, was pressed or released.
    Button { button: u32, pressed: bool },
    /// A finger was put down.
    TouchDown { slot: Option<u32>, position: P },
    /// A finger left the screen.
    TouchUp { slot: Option<u32> },
    /// A finger moved.
    TouchMotion { slot: Option<u32>, position: P },
    /// The device gave up on a finger.
    TouchCancel { slot: Option<u32> },
    /// A key was pressed or released. `sym` is its symbol, `utf32` the character
    /// number that the key map gives for it, and the modifiers are those after
    /// the event.
    Key { sym: u32, utf32: u32, pressed: bool, control: bool, alt: bool },
    /// Any other event.
    Other,
}

/// What is done to the window, or to the event loop, about an input event.
#[derive(PartialEq, Eq, Debug)]
pub enum WindowCommand<P> {
    PointerMoved { position: P },
    PointerPressed { position: P, button: PointerEventButton },
    PointerReleased { position: P, button: PointerEventButton },
    Touch { slot: i32, position: P, phase: TouchPhase },
    KeyPressed { text: char },
    KeyReleased { text: char },
    /// The event loop is asked to end.
    QuitEventLoop,
}

/// The button with the kernel's number `code`.
pub open spec fn button_of(code: u32) -> PointerEventButton {
    if code == 0x110 {
        PointerEventButton::Left
    } else if code == 0x111 {
        PointerEventButton::Right
    } else if code == 0x112 {
        PointerEventButton::Middle
    } else if code == 0x116 {
        PointerEventButton::Back
    } else if code == 0x115 {
        PointerEventButton::Forward
    } else {
        PointerEventButton::Other
    }
}

/// The button with the kernel's number `code`.
pub fn pointer_button(code: u32) -> (button: PointerEventButton)
    ensures
        button == button_of(code),
{
    match code {
        0x110 => PointerEventButton::Left,
        0x111 => PointerEventButton::Right,
        0x112 => PointerEventButton::Middle,
        0x116 => PointerEventButton::Back,
        0x115 => PointerEventButton::Forward,
        _ => PointerEventButton::Other,
    }
}

/// The number of a touch slot; a device with a single slot reports none.
pub open spec fn slot_number(slot: Option<u32>) -> i32 {
    match slot {
        Some(number) => number as i32,
        None => 0,
    }
}

/// The number of a touch slot.
fn touch_slot(slot: Option<u32>) -> (number: i32)
    ensures
        number == slot_number(slot),
{
    match slot {
        Some(number) => #[verifier::truncate]
        (number as i32),
        None => 0,
    }
}

/// What is remembered between events.
#[verifier::ext_equal]
pub struct HandlerState<P> {
    /// Where the pointer is, once it has moved.
    pub mouse_pos: Option<P>,
    /// The last known positions of the fingers.
    pub touches: Seq<(i32, Option<P>)>,
}

impl<P> HandlerState<P> {
    /// There is an entry for each of five fingers, and none has two.
    pub open spec fn valid(self) -> bool {
        self.touches.len() == MAX_FINGERS && table_valid(self.touches)
    }

    /// Where the finger in `slot` was seen last.
    pub open spec fn finger(self, slot: i32) -> Option<P> {
        last_position(self.touches, slot)
    }

    /// There is an entry for the finger in `slot`, or room for one.
    pub open spec fn can_track(self, slot: i32) -> bool {
        self.finger(slot) is Some || free_entry(self.touches) < self.touches.len()
    }

    /// What is remembered after an event.
    pub open spec fn after(self, event: InputEvent<P>) -> HandlerState<P> {
        match event {
            InputEvent::Motion { position } => HandlerState { mouse_pos: Some(position), ..self },
            InputEvent::TouchDown { slot, position } => HandlerState {
                touches: with_position(self.touches, slot_number(slot), position),
                ..self
            },
            InputEvent::TouchMotion { slot, position } => HandlerState {
                touches: with_position(self.touches, slot_number(slot), position),
                ..self
            },
            InputEvent::TouchUp { slot } => HandlerState {
                touches: without_position(self.touches, slot_number(slot)),
                ..self
            },
            InputEvent::TouchCancel { slot } => HandlerState {
                touches: without_position(self.touches, slot_number(slot)),
                ..self
            },
            _ => self,
        }
    }

    /// What is remembered after a number of events.
    pub open spec fn after_all(self, events: Seq<InputEvent<P>>) -> HandlerState<P>
        decreases events.len(),
    {
        if events.len() == 0 {
            self
        } else {
            self.after_all(events.drop_last()).after(events.last())
        }
    }

    /// What is done about an event. `origin` is the position of a pointer that
    /// never moved and of a finger that is not tracked.
    pub open spec fn commands(self, event: InputEvent<P>, origin: P) -> Seq<WindowCommand<P>> {
        match event {
            InputEvent::Motion { position } => seq![WindowCommand::PointerMoved { position }],
            InputEvent::Button { button, pressed } => {
                let position = match self.mouse_pos {
                    Some(position) => position,
                    None => origin,
                };
                if pressed {
                    seq![WindowCommand::PointerPressed { position, button: button_of(button) }]
                } else {
                    seq![WindowCommand::PointerReleased { position, button: button_of(button) }]
                }
            },
            InputEvent::TouchDown { slot, position } => seq![
                WindowCommand::Touch {
                    slot: slot_number(slot),
                    position,
                    phase: TouchPhase::Started,
                },
            ],
            InputEvent::TouchMotion { slot, position } => seq![
                WindowCommand::Touch {
                    slot: slot_number(slot),
                    position,
                    phase: TouchPhase::Moved,
                },
            ],
            InputEvent::TouchUp { slot } => seq![
                WindowCommand::Touch {
                    slot: slot_number(slot),
                    position: self.finger_or(slot_number(slot), origin),
                    phase: TouchPhase::Ended,
                },
            ],
            InputEvent::TouchCancel { slot } => seq![
                WindowCommand::Touch {
                    slot: slot_number(slot),
                    position: self.finger_or(slot_number(slot), origin),
                    phase: TouchPhase::Cancelled,
                },
            ],
            InputEvent::Key { sym, utf32, pressed, control, alt } => {
                let quit = if quits(sym, pressed, control, alt) {
                    seq![WindowCommand::QuitEventLoop]
                } else {
                    seq![]
                };
                match key_text(sym, utf32) {
                    Some(text) => if pressed {
                        quit + seq![WindowCommand::KeyPressed { text }]
                    } else {
                        quit + seq![WindowCommand::KeyReleased { text }]
                    },
                    None => quit,
                }
            },
            InputEvent::Other => seq![],
        }
    }

    /// Where the finger in `slot` was seen last, or `origin`.
    pub open spec fn finger_or(self, slot: i32, origin: P) -> P {
        match self.finger(slot) {
            Some(position) => position,
            None => origin,
        }
    }
}

/// The event is about the finger in `slot`.
pub open spec fn concerns_finger<P>(event: InputEvent<P>, slot: i32) -> bool {
    match event {
        InputEvent::TouchDown { slot: s, .. } => slot_number(s) == slot,
        InputEvent::TouchMotion { slot: s, .. } => slot_number(s) == slot,
        InputEvent::TouchUp { slot: s } => slot_number(s) == slot,
        InputEvent::TouchCancel { slot: s } => slot_number(s) == slot,
        _ => false,
    }
}

/// Turns the events of the input devices into what the window is told.
pub struct LibInputHandler<P> {
    mouse_pos: Option<P>,
    last_touch_positions: TouchTable<P>,
}

impl<P> View for LibInputHandler<P> {
    type V = HandlerState<P>;

    closed spec fn view(&self) -> HandlerState<P> {
        HandlerState { mouse_pos: self.mouse_pos, touches: self.last_touch_positions@ }
    }
}

impl<P: Copy> LibInputHandler<P> {
    /// There is an entry for each of five fingers, and none has two.
    pub open spec fn valid(self) -> bool {
        self@.valid()
    }

    /// A handler for devices that have not reported anything yet.
    pub fn init() -> (handler: LibInputHandler<P>)
        ensures
            handler.valid(),
            handler@.mouse_pos is None,
            forall|slot: i32| #[trigger] handler@.finger(slot) is None,
            forall|slot: i32| #[trigger] handler@.can_track(slot),
    {
        let handler = LibInputHandler {
            mouse_pos: None,
            last_touch_positions: empty_touch_table(),
        };
        proof {
            let touches = handler@.touches;
            assert(touches[0].1 is None);
            assert forall|slot: i32| #[trigger] handler@.finger(slot) is None by {
                crate::touch::lemma_slot_entry(touches, slot);
            }
        }
        handler
    }

    /// Where the pointer is, once it has moved.
    pub fn mouse_position(&self) -> (position: Option<P>)
        ensures
            position == self@.mouse_pos,
    {
        self.mouse_pos
    }

    /// Where a relative motion starts from: the pointer's position, or the
    /// `centre` of the screen for the first one.
    pub fn motion_start(&self, centre: P) -> (position: P)
        ensures
            position == (match self@.mouse_pos {
                Some(position) => position,
                None => centre,
            }),
    {
        match self.mouse_pos {
            Some(position) => position,
            None => centre,
        }
    }

    /// Handles one event: what to do about it, in order. An event that the
    /// application's hook has `consumed` is passed over.
    pub fn process_event(&mut self, event: InputEvent<P>, consumed: bool, origin: P) -> (commands:
        Vec<WindowCommand<P>>)
        requires
            old(self).valid(),
        ensures
            final(self).valid(),
            consumed ==> *final(self) == *old(self) && commands@ == Seq::<WindowCommand<P>>::empty(),
            !consumed ==> final(self)@ == old(self)@.after(event),
            !consumed ==> commands@ == old(self)@.commands(event, origin),
    {
        let mut commands: Vec<WindowCommand<P>> = Vec::new();
        if consumed {
            return commands;
        }
        match event {
            InputEvent::Motion { position } => {
                self.mouse_pos = Some(position);
                commands.push(WindowCommand::PointerMoved { position });
            },
            InputEvent::Button { button, pressed } => {
                let position: P = match self.mouse_pos {
                    Some(position) => position,
                    None => origin,
                };
                let button = pointer_button(button);
                if pressed {
                    commands.push(WindowCommand::PointerPressed { position, button });
                } else {
                    commands.push(WindowCommand::PointerReleased { position, button });
                }
            },
            InputEvent::TouchDown { slot, position } => {
                let slot: i32 = touch_slot(slot);
                self.track(slot, position);
                commands.push(
                    WindowCommand::Touch { slot, position, phase: TouchPhase::Started },
                );
            },
            InputEvent::TouchUp { slot } => {
                let slot: i32 = touch_slot(slot);
                let position: P = self.untrack(slot, origin);
                commands.push(WindowCommand::Touch { slot, position, phase: TouchPhase::Ended });
            },
            InputEvent::TouchMotion { slot, position } => {
                let slot: i32 = touch_slot(slot);
                self.track(slot, position);
                commands.push(WindowCommand::Touch { slot, position, phase: TouchPhase::Moved });
            },
            InputEvent::TouchCancel { slot } => {
                let slot: i32 = touch_slot(slot);
                let position: P = self.untrack(slot, origin);
                commands.push(
                    WindowCommand::Touch { slot, position, phase: TouchPhase::Cancelled },
                );
            },
            InputEvent::Key { sym, utf32, pressed, control, alt } => {
                if is_quit_combination(sym, pressed, control, alt) {
                    commands.push(WindowCommand::QuitEventLoop);
                }
                if let Some(text) = map_key_sym(sym, utf32) {
                    if pressed {
                        commands.push(WindowCommand::KeyPressed { text });
                    } else {
                        commands.push(WindowCommand::KeyReleased { text });
                    }
                }
            },
            InputEvent::Other => {},
        }
        commands
    }

    /// Records where a finger is.
    fn track(&mut self, slot: i32, position: P)
        requires
            old(self).valid(),
        ensures
            final(self).valid(),
            final(self)@ == (HandlerState {
                touches: with_position(old(self)@.touches, slot, position),
                ..old(self)@
            }),
    {
        proof {
            recorded_positions_are_replayed(self@.touches, slot, position);
        }
        set_touch_pos(&mut self.last_touch_positions, slot, position);
    }

    /// Where a finger was seen last; it is tracked no longer.
    fn untrack(&mut self, slot: i32, origin: P) -> (position: P)
        requires
            old(self).valid(),
        ensures
            final(self).valid(),
            position == old(self)@.finger_or(slot, origin),
            final(self)@ == (HandlerState {
                touches: without_position(old(self)@.touches, slot),
                ..old(self)@
            }),
    {
        proof {
            taken_positions_are_gone(self@.touches, slot);
        }
        take_touch_pos(&mut self.last_touch_positions, slot, origin)
    }
}

/// Every event keeps the table of fingers free of doubles, and as long as it is.
pub proof fn events_keep_the_table_valid<P>(state: HandlerState<P>, events: Seq<InputEvent<P>>)
    requires
        table_valid(state.touches),
    ensures
        table_valid(state.after_all(events).touches),
        state.after_all(events).touches.len() == state.touches.len(),
    decreases events.len(),
{
    if events.len() > 0 {
        let before = state.after_all(events.drop_last());
        events_keep_the_table_valid(state, events.drop_last());
        match events.last() {
            InputEvent::TouchDown { slot, position } => {
                recorded_positions_are_replayed(before.touches, slot_number(slot), position);
            },
            InputEvent::TouchMotion { slot, position } => {
                recorded_positions_are_replayed(before.touches, slot_number(slot), position);
            },
            InputEvent::TouchUp { slot } => {
                taken_positions_are_gone(before.touches, slot_number(slot));
            },
            InputEvent::TouchCancel { slot } => {
                taken_positions_are_gone(before.touches, slot_number(slot));
            },
            _ => {},
        }
    }
}

/// Events that are not about a finger leave its last position as it is.
pub proof fn other_events_leave_a_finger_alone<P>(
    state: HandlerState<P>,
    events: Seq<InputEvent<P>>,
    slot: i32,
)
    requires
        table_valid(state.touches),
        forall|i: int| 0 <= i < events.len() ==> !concerns_finger(#[trigger] events[i], slot),
    ensures
        state.after_all(events).finger(slot) == state.finger(slot),
    decreases events.len(),
{
    if events.len() > 0 {
        let rest = events.drop_last();
        let before = state.after_all(rest);
        assert(!concerns_finger(events[events.len() - 1], slot));
        assert forall|i: int| 0 <= i < rest.len() implies !concerns_finger(
            #[trigger] rest[i],
            slot,
        ) by {
            assert(rest[i] == events[i]);
        }
        other_events_leave_a_finger_alone(state, rest, slot);
        events_keep_the_table_valid(state, rest);
        match events.last() {
            InputEvent::TouchDown { slot: s, position } => {
                recorded_positions_are_replayed(before.touches, slot_number(s), position);
                assert(last_position(before.touches, slot) == before.finger(slot));
            },
            InputEvent::TouchMotion { slot: s, position } => {
                recorded_positions_are_replayed(before.touches, slot_number(s), position);
                assert(last_position(before.touches, slot) == before.finger(slot));
            },
            InputEvent::TouchUp { slot: s } => {
                taken_positions_are_gone(before.touches, slot_number(s));
                assert(last_position(before.touches, slot) == before.finger(slot));
            },
            InputEvent::TouchCancel { slot: s } => {
                taken_positions_are_gone(before.touches, slot_number(s));
                assert(last_position(before.touches, slot) == before.finger(slot));
            },
            _ => {},
        }
    }
}

/// A finger that leaves the screen, or is given up on, does so where it was seen
/// last, whatever other events came in between. This holds of every finger that
/// could be tracked when it was seen.
pub proof fn a_finger_leaves_where_it_was_seen_last<P>(
    state: HandlerState<P>,
    seen: InputEvent<P>,
    slot: Option<u32>,
    position: P,
    between: Seq<InputEvent<P>>,
    origin: P,
)
    requires
        table_valid(state.touches),
        state.can_track(slot_number(slot)),
        seen == (InputEvent::TouchDown { slot, position }) || seen == (InputEvent::TouchMotion {
            slot,
            position,
        }),
        forall|i: int|
            0 <= i < between.len() ==> !concerns_finger(#[trigger] between[i], slot_number(slot)),
    ensures
        state.after(seen).after_all(between).commands(InputEvent::TouchUp { slot }, origin) == seq![
            WindowCommand::Touch { slot: slot_number(slot), position, phase: TouchPhase::Ended },
        ],
        state.after(seen).after_all(between).commands(InputEvent::TouchCancel { slot }, origin)
            == seq![
            WindowCommand::Touch {
                slot: slot_number(slot),
                position,
                phase: TouchPhase::Cancelled,
            },
        ],
{
    recorded_positions_are_replayed(state.touches, slot_number(slot), position);
    other_events_leave_a_finger_alone(state.after(seen), between, slot_number(slot));
}

/// Once a finger has left the screen it has no position any more.
pub proof fn a_finger_that_left_is_forgotten<P>(state: HandlerState<P>, slot: Option<u32>)
    requires
        table_valid(state.touches),
    ensures
        state.after(InputEvent::TouchUp { slot }).finger(slot_number(slot)) is None,
        state.after(InputEvent::TouchCancel { slot }).finger(slot_number(slot)) is None,
{
    taken_positions_are_gone(state.touches, slot_number(slot));
}

/// The finger that the event sees on the screen, if it sees one.
pub open spec fn finger_seen<P>(event: InputEvent<P>) -> Option<i32> {
    match event {
        InputEvent::TouchDown { slot, .. } => Some(slot_number(slot)),
        InputEvent::TouchMotion { slot, .. } => Some(slot_number(slot)),
        _ => None,
    }
}

/// The finger that the event takes off the screen, if it takes one.
pub open spec fn finger_gone<P>(event: InputEvent<P>) -> Option<i32> {
    match event {
        InputEvent::TouchUp { slot } => Some(slot_number(slot)),
        InputEvent::TouchCancel { slot } => Some(slot_number(slot)),
        _ => None,
    }
}

/// The fingers that are on the screen after these events, if none was before.
pub open spec fn in_contact<P>(events: Seq<InputEvent<P>>) -> Set<i32>
    decreases events.len(),
{
    if events.len() == 0 {
        Set::empty()
    } else {
        let before = in_contact(events.drop_last());
        match finger_seen(events.last()) {
            Some(slot) => before.insert(slot),
            None => match finger_gone(events.last()) {
                Some(slot) => before.remove(slot),
                None => before,
            },
        }
    }
}

/// At no time more fingers are on the screen than can be tracked.
pub open spec fn never_too_many_fingers<P>(events: Seq<InputEvent<P>>) -> bool {
    forall|n: int|
        0 <= n <= events.len() ==> (#[trigger] in_contact(events.take(n))).len() <= MAX_FINGERS
}

/// Only finitely many fingers are on the screen.
proof fn lemma_contacts_finite<P>(events: Seq<InputEvent<P>>)
    ensures
        in_contact(events).finite(),
    decreases events.len(),
{
    if events.len() > 0 {
        lemma_contacts_finite(events.drop_last());
    }
}

/// If each entry holds a finger, five fingers are tracked, so a sixth one has not
/// been put down.
proof fn lemma_room_for_a_finger<P>(state: HandlerState<P>, fingers: Set<i32>, slot: i32)
    requires
        state.valid(),
        forall|s: i32| state.finger(s) is Some <==> #[trigger] fingers.contains(s),
        fingers.finite(),
        fingers.insert(slot).len() <= MAX_FINGERS,
    ensures
        state.can_track(slot),
{
    let table = state.touches;
    if !state.can_track(slot) {
        crate::touch::lemma_free_entry(table);
        assert forall|i: int| 0 <= i < 5 implies fingers.contains((#[trigger] table[i]).0)
            && table[i].0 != slot by {
            assert(table[i].1 is Some);
            crate::touch::lemma_slot_entry(table, table[i].0);
            let first = crate::touch::slot_entry(table, table[i].0);
            if first < i {
                assert(table[first].0 == table[i].0);
            }
            assert(first == i);
            assert(state.finger(table[i].0) is Some);
        }
        assert(!fingers.contains(slot));
        assert(fingers.contains(table[0].0) && fingers.contains(table[1].0) && fingers.contains(
            table[2].0,
        ) && fingers.contains(table[3].0) && fingers.contains(table[4].0));
        assert forall|i: int, j: int| 0 <= i < j < 5 implies (#[trigger] table[i]).0 != (
        #[trigger] table[j]).0 by {}
        let s0 = Set::<i32>::empty();
        let s1 = s0.insert(table[0].0);
        let s2 = s1.insert(table[1].0);
        let s3 = s2.insert(table[2].0);
        let s4 = s3.insert(table[3].0);
        let s5 = s4.insert(table[4].0);
        let s6 = s5.insert(slot);
        assert(s1.len() == 1);
        assert(!s1.contains(table[1].0));
        assert(s2.len() == 2);
        assert(!s2.contains(table[2].0));
        assert(s3.len() == 3);
        assert(!s3.contains(table[3].0));
        assert(s4.len() == 4);
        assert(!s4.contains(table[4].0));
        assert(s5.len() == 5);
        assert(!s5.contains(slot));
        assert(s6.len() == 6);
        assert(s6.subset_of(fingers.insert(slot)));
        vstd::set_lib::lemma_len_subset(s6, fingers.insert(slot));
    }
}

/// As long as at most five fingers are on the screen, every one of them is
/// tracked and no other is, and each that is seen can be.
pub proof fn five_fingers_are_tracked<P>(state: HandlerState<P>, events: Seq<InputEvent<P>>)
    requires
        state.valid(),
        forall|slot: i32| #[trigger] state.finger(slot) is None,
        never_too_many_fingers(events),
    ensures
        state.after_all(events).valid(),
        forall|slot: i32|
            state.after_all(events).finger(slot) is Some <==> #[trigger] in_contact(
                events,
            ).contains(slot),
        forall|n: int|
            #![trigger events[n]]
            0 <= n < events.len() ==> (finger_seen(events[n]) matches Some(slot)
                ==> state.after_all(events.take(n)).can_track(slot)),
    decreases events.len(),
{
    events_keep_the_table_valid(state, events);
    if events.len() > 0 {
        let rest = events.drop_last();
        let last = events.len() - 1;
        assert forall|n: int| 0 <= n <= rest.len() implies (#[trigger] in_contact(
            rest.take(n),
        )).len() <= MAX_FINGERS by {
            assert(rest.take(n) =~= events.take(n));
        }
        five_fingers_are_tracked(state, rest);
        let before = state.after_all(rest);
        let event = events.last();
        assert(rest =~= events.take(last));
        assert(in_contact(events.take(events.len() as int)).len() <= MAX_FINGERS);
        assert(events.take(events.len() as int) =~= events);
        lemma_contacts_finite(rest);
        assert forall|s: i32| before.finger(s) is Some <==> #[trigger] in_contact(rest).contains(
            s,
        ) by {}
        if let Some(slot) = finger_seen(event) {
            lemma_room_for_a_finger(before, in_contact(rest), slot);
        }
        match event {
            InputEvent::TouchDown { slot, position } => {
                recorded_positions_are_replayed(before.touches, slot_number(slot), position);
            },
            InputEvent::TouchMotion { slot, position } => {
                recorded_positions_are_replayed(before.touches, slot_number(slot), position);
            },
            InputEvent::TouchUp { slot } => {
                taken_positions_are_gone(before.touches, slot_number(slot));
            },
            InputEvent::TouchCancel { slot } => {
                taken_positions_are_gone(before.touches, slot_number(slot));
            },
            _ => {},
        }
        assert forall|slot: i32|
            state.after_all(events).finger(slot) is Some <==> #[trigger] in_contact(
                events,
            ).contains(slot) by {
            assert(last_position(before.touches, slot) == before.finger(slot));
            assert(before.finger(slot) is Some <==> in_contact(rest).contains(slot));
        }
        assert forall|n: int|
            #![trigger events[n]]
            0 <= n < events.len() implies (finger_seen(events[n]) matches Some(slot)
            ==> state.after_all(events.take(n)).can_track(slot)) by {
            if n < last {
                assert(rest[n] == events[n]);
                assert(rest.take(n) =~= events.take(n));
            }
        }
    }
}

/// Events one after the other are the first ones and then the others.
proof fn lemma_after_all_splits<P>(
    state: HandlerState<P>,
    first: Seq<InputEvent<P>>,
    then_come: Seq<InputEvent<P>>,
)
    ensures
        state.after_all(first + then_come) == state.after_all(first).after_all(then_come),
    decreases then_come.len(),
{
    if then_come.len() > 0 {
        lemma_after_all_splits(state, first, then_come.drop_last());
        assert((first + then_come).drop_last() =~= first + then_come.drop_last());
    } else {
        assert(first + then_come =~= first);
    }
}

/// As long as at most five fingers are on the screen, each of them leaves it, or
/// is given up on, where it was seen last, and the others keep their positions.
/// `n` is the event that saw the finger last.
pub proof fn five_fingers_leave_where_they_were_seen_last<P>(
    state: HandlerState<P>,
    events: Seq<InputEvent<P>>,
    n: int,
    seen: Option<u32>,
    position: P,
    gone: Option<u32>,
    origin: P,
    other: i32,
)
    requires
        state.valid(),
        forall|slot: i32| #[trigger] state.finger(slot) is None,
        never_too_many_fingers(events),
        0 <= n < events.len(),
        events[n] == (InputEvent::TouchDown { slot: seen, position }) || events[n] == (
        InputEvent::TouchMotion { slot: seen, position }),
        forall|i: int|
            n < i < events.len() ==> !concerns_finger(#[trigger] events[i], slot_number(seen)),
        slot_number(gone) == slot_number(seen),
        other != slot_number(seen),
    ensures
        ({
            let now = state.after_all(events);
            let (up, cancel) = (
                InputEvent::TouchUp { slot: gone },
                InputEvent::TouchCancel { slot: gone },
            );
            let slot = slot_number(seen);
            &&& now.commands(up, origin) == seq![
                WindowCommand::Touch { slot, position, phase: TouchPhase::Ended },
            ]
            &&& now.commands(cancel, origin) == seq![
                WindowCommand::Touch { slot, position, phase: TouchPhase::Cancelled },
            ]
            &&& now.after(up).finger(other) == now.finger(other)
            &&& now.after(cancel).finger(other) == now.finger(other)
        }),
{
    let slot = slot_number(seen);
    five_fingers_are_tracked(state, events);
    let first = events.take(n);
    let rest = events.skip(n + 1);
    let before = state.after_all(first);
    events_keep_the_table_valid(state, first);
    assert(finger_seen(events[n]) == Some(slot));
    recorded_positions_are_replayed(before.touches, slot, position);
    assert(events.take(n + 1).drop_last() =~= first);
    assert(events.take(n + 1).last() == events[n]);
    let after = state.after_all(events.take(n + 1));
    assert(after == before.after(events[n]));
    assert(events.take(n + 1) + rest =~= events);
    lemma_after_all_splits(state, events.take(n + 1), rest);
    assert forall|i: int| 0 <= i < rest.len() implies !concerns_finger(#[trigger] rest[i], slot) by {
        assert(rest[i] == events[n + 1 + i]);
    }
    other_events_leave_a_finger_alone(after, rest, slot);
    let now = state.after_all(events);
    events_keep_the_table_valid(state, events);
    taken_positions_are_gone(now.touches, slot);
    assert(last_position(now.touches, other) == now.finger(other));
}

/// Control, Alt and Backspace or Delete end the event loop, on the key press and
/// in every state; no other event does.
pub proof fn only_the_quit_combination_quits<P>(
    state: HandlerState<P>,
    event: InputEvent<P>,
    origin: P,
)
    ensures
        state.commands(event, origin).contains(WindowCommand::QuitEventLoop) <==> (event matches
            InputEvent::Key { sym, pressed, control, alt, .. } && quits(sym, pressed, control, alt)),
{
    let commands = state.commands(event, origin);
    if event matches InputEvent::Key { sym, pressed, control, alt, .. } && quits(
        sym,
        pressed,
        control,
        alt,
    ) {
        assert(commands[0] == WindowCommand::<P>::QuitEventLoop);
    }
}

/// A pointer button is reported where the pointer was moved to last, whatever
/// other events came in between.
pub proof fn buttons_act_where_the_pointer_is<P>(
    state: HandlerState<P>,
    position: P,
    between: Seq<InputEvent<P>>,
    code: u32,
    pressed: bool,
    origin: P,
)
    requires
        forall|i: int| 0 <= i < between.len() ==> !(#[trigger] between[i] is Motion),
    ensures
        state.after(InputEvent::Motion { position }).after_all(between).commands(
            InputEvent::Button { button: code, pressed },
            origin,
        ) == (if pressed {
            seq![WindowCommand::PointerPressed { position, button: button_of(code) }]
        } else {
            seq![WindowCommand::PointerReleased { position, button: button_of(code) }]
        }),
{
    lemma_pointer_stays(state.after(InputEvent::Motion { position }), between);
}

/// Only a motion moves the pointer.
proof fn lemma_pointer_stays<P>(state: HandlerState<P>, events: Seq<InputEvent<P>>)
    requires
        forall|i: int| 0 <= i < events.len() ==> !(#[trigger] events[i] is Motion),
    ensures
        state.after_all(events).mouse_pos == state.mouse_pos,
    decreases events.len(),
{
    if events.len() > 0 {
        assert(!(events[events.len() - 1] is Motion));
        assert forall|i: int| 0 <= i < events.drop_last().len() implies !(
        #[trigger] events.drop_last()[i] is Motion) by {
            assert(events.drop_last()[i] == events[i]);
        }
        lemma_pointer_stays(state, events.drop_last());
    }
}

/// In every state, a motion tells the window one thing, that the pointer moved to
/// that position, and from then on the pointer is there. The fingers stay.
pub proof fn every_motion_is_told<P>(state: HandlerState<P>, position: P, origin: P)
    ensures
        state.commands(InputEvent::Motion { position }, origin) == seq![
            WindowCommand::PointerMoved { position },
        ],
        state.after(InputEvent::Motion { position }).mouse_pos == Some(position),
        state.after(InputEvent::Motion { position }).touches == state.touches,
{
}

/// In every state, a finger that is put down or moved is reported once, with its
/// slot, its position and what it does, whether it can be tracked or not. The
/// pointer stays.
pub proof fn every_touch_is_told<P>(
    state: HandlerState<P>,
    slot: Option<u32>,
    position: P,
    origin: P,
)
    ensures
        ({
            let down = InputEvent::TouchDown { slot, position };
            let motion = InputEvent::TouchMotion { slot, position };
            let number = slot_number(slot);
            &&& state.commands(down, origin) == seq![
                WindowCommand::Touch { slot: number, position, phase: TouchPhase::Started },
            ]
            &&& state.commands(motion, origin) == seq![
                WindowCommand::Touch { slot: number, position, phase: TouchPhase::Moved },
            ]
            &&& state.after(down).mouse_pos == state.mouse_pos
            &&& state.after(motion) == state.after(down)
        }),
{
}

/// In every state, a finger that leaves or is given up on is reported once, with
/// its slot and where it was seen last, or the origin if it is not tracked. The
/// pointer stays, and so do the other fingers.
pub proof fn every_finger_that_leaves_is_told<P>(
    state: HandlerState<P>,
    slot: Option<u32>,
    origin: P,
    other: i32,
)
    requires
        table_valid(state.touches),
        other != slot_number(slot),
    ensures
        ({
            let up = InputEvent::TouchUp { slot };
            let cancel = InputEvent::TouchCancel { slot };
            let number = slot_number(slot);
            let position = match state.finger(number) {
                Some(seen) => seen,
                None => origin,
            };
            &&& state.commands(up, origin) == seq![
                WindowCommand::Touch { slot: number, position, phase: TouchPhase::Ended },
            ]
            &&& state.commands(cancel, origin) == seq![
                WindowCommand::Touch { slot: number, position, phase: TouchPhase::Cancelled },
            ]
            &&& state.after(up).mouse_pos == state.mouse_pos
            &&& state.after(up).finger(other) == state.finger(other)
            &&& state.after(cancel) == state.after(up)
        }),
{
    taken_positions_are_gone(state.touches, slot_number(slot));
    assert(last_position(state.touches, other) == state.finger(other));
}

/// In every state, a button is reported once, as pressed or as released, where the
/// pointer is, or at the origin before it has moved. Nothing is remembered of it.
pub proof fn every_button_is_told<P>(
    state: HandlerState<P>,
    code: u32,
    pressed: bool,
    origin: P,
)
    ensures
        ({
            let event = InputEvent::Button { button: code, pressed };
            let position = match state.mouse_pos {
                Some(position) => position,
                None => origin,
            };
            let commands = state.commands(event, origin);
            &&& commands.len() == 1
            &&& pressed ==> (commands[0] matches WindowCommand::PointerPressed { position: p, .. }
                && p == position)
            &&& !pressed ==> (commands[0] matches WindowCommand::PointerReleased {
                position: p,
                ..
            } && p == position)
            &&& commands[0] matches WindowCommand::PointerPressed { button, .. } ==> button
                == button_of(code)
            &&& commands[0] matches WindowCommand::PointerReleased { button, .. } ==> button
                == button_of(code)
            &&& state.after(event) == state
        }),
{
}

/// Each button that has a name is known by its number alone, and every other
/// number is that of some other button.
pub proof fn buttons_are_known_by_their_numbers(code: u32)
    ensures
        button_of(code) == PointerEventButton::Left <==> code == 0x110,
        button_of(code) == PointerEventButton::Right <==> code == 0x111,
        button_of(code) == PointerEventButton::Middle <==> code == 0x112,
        button_of(code) == PointerEventButton::Forward <==> code == 0x115,
        button_of(code) == PointerEventButton::Back <==> code == 0x116,
        button_of(code) == PointerEventButton::Other <==> code < 0x110 || code == 0x113 || code
            == 0x114 || 0x116 < code,
{
}

/// In every state, a key with text is reported once with it, as pressed or as
/// released, and one without is not. Before that the loop is asked to end, on the
/// key press of Backspace or Delete with Control and Alt held, and on no other.
/// Nothing is remembered of it.
pub proof fn every_key_is_told<P>(
    state: HandlerState<P>,
    sym: u32,
    utf32: u32,
    pressed: bool,
    control: bool,
    alt: bool,
    origin: P,
)
    ensures
        ({
            let event = InputEvent::Key { sym, utf32, pressed, control, alt };
            let commands = state.commands(event, origin);
            let quit = pressed && control && alt && (sym == 0xff08 || sym == 0xffff);
            let text = key_text(sym, utf32);
            let quits: nat = if quit {
                1
            } else {
                0
            };
            &&& commands.len() == quits + (if text is Some {
                1nat
            } else {
                0nat
            })
            &&& quit ==> commands[0] == WindowCommand::<P>::QuitEventLoop
            &&& text matches Some(text) ==> commands.last() == (if pressed {
                WindowCommand::<P>::KeyPressed { text }
            } else {
                WindowCommand::<P>::KeyReleased { text }
            })
            &&& state.after(event) == state
        }),
{
}

/// Any other event tells the window nothing, and nothing is remembered of it.
pub proof fn other_events_are_passed_over<P>(state: HandlerState<P>, origin: P)
    ensures
        state.commands(InputEvent::Other, origin) == Seq::<WindowCommand<P>>::empty(),
        state.after(InputEvent::Other) == state,
{
}

/// A slot is known by its number, counted as the device counts it; numbers above
/// the largest positive one go on from the smallest negative one. So two slots
/// are never taken for one another, and a device without slots has slot zero.
pub proof fn slots_are_told_apart(a: u32, b: u32)
    ensures
        slot_number(None) == 0,
        a <= 0x7fff_ffff ==> slot_number(Some(a)) == a,
        a > 0x7fff_ffff ==> slot_number(Some(a)) == a - 0x1_0000_0000,
        slot_number(Some(a)) == slot_number(Some(b)) ==> a == b,
{
    lemma_slot_wraps(a);
    lemma_slot_wraps(b);
}

/// What cutting a slot's number to a signed one gives.
proof fn lemma_slot_wraps(a: u32)
    ensures
        a <= 0x7fff_ffff ==> a as i32 == a,
        a > 0x7fff_ffff ==> a as i32 == a - 0x1_0000_0000,
{
    assert(a <= 0x7fff_ffff ==> a as i32 == a) by (bit_vector);
    assert(a > 0x7fff_ffff ==> a as i32 == a - 0x1_0000_0000) by (bit_vector);
}

/// A finger can be tracked as long as five others are not, and then its position
/// is the one it was seen at last.
pub proof fn a_sixth_finger_is_not_tracked<P>(
    state: HandlerState<P>,
    slot: Option<u32>,
    position: P,
)
    requires
        state.valid(),
    ensures
        state.touches.len() == 5,
        ({
            let number = slot_number(slot);
            let after = state.after(InputEvent::TouchDown { slot, position });
            &&& (exists|i: int| 0 <= i < 5 && (#[trigger] state.touches[i]).1 is None)
                || state.finger(number) is Some ==> after.finger(number) == Some(position)
            &&& (forall|i: int| 0 <= i < 5 ==> (#[trigger] state.touches[i]).1 is Some)
                && state.finger(number) is None ==> after == state
        }),
{
    crate::touch::lemma_free_entry(state.touches);
    recorded_positions_are_replayed(state.touches, slot_number(slot), position);
}

} // verus!
