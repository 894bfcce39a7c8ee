use linuxsgc::touch::{empty_touch_table, set_touch_pos, take_touch_pos};

#[test]
fn a_position_is_replayed_once() {
    let mut table = empty_touch_table::<u32>();
    set_touch_pos(&mut table, 3, 30);
    set_touch_pos(&mut table, 0, 10);
    set_touch_pos(&mut table, 3, 31);
    assert_eq!(take_touch_pos(&mut table, 3, 0), 31);
    assert_eq!(take_touch_pos(&mut table, 3, 0), 0);
    assert_eq!(take_touch_pos(&mut table, 0, 0), 10);
}

#[test]
fn a_sixth_finger_is_not_tracked() {
    let mut table = empty_touch_table::<u32>();
    for slot in 0..6 {
        set_touch_pos(&mut table, slot, 100 + slot as u32);
    }
    assert_eq!(take_touch_pos(&mut table, 5, 7), 7);
    for slot in 0..5 {
        assert_eq!(take_touch_pos(&mut table, slot, 7), 100 + slot as u32);
    }
}

#[test]
fn a_freed_entry_is_used_again() {
    let mut table = empty_touch_table::<u32>();
    for slot in 10..15 {
        set_touch_pos(&mut table, slot, slot as u32);
    }
    assert_eq!(take_touch_pos(&mut table, 12, 0), 12);
    set_touch_pos(&mut table, 20, 200);
    assert_eq!(take_touch_pos(&mut table, 20, 0), 200);
    assert_eq!(take_touch_pos(&mut table, 14, 0), 14);
}
