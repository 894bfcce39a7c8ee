use i_slint_common::key_codes::lookup_key_name;
use linuxsgc::keys::{is_quit_combination, map_key_sym, xkb_keycode};

#[test]
fn named_keys_have_their_characters() {
    for (name, sym) in [
        ("Backspace", 0xff08),
        ("Tab", 0xff09),
        ("Return", 0xff0d),
        ("Escape", 0xff1b),
        ("Backtab", 0x1000ff74),
        ("Delete", 0xffff),
        ("Shift", 0xffe1),
        ("Control", 0xffe3),
        ("Alt", 0xffe9),
        ("AltGr", 0xff7e),
        ("CapsLock", 0xffe5),
        ("ShiftR", 0xffe2),
        ("ControlR", 0xffe4),
        ("Meta", 0xffe7),
        ("MetaR", 0xffe8),
        ("Space", 0x20),
        ("UpArrow", 0xff52),
        ("DownArrow", 0xff54),
        ("LeftArrow", 0xff51),
        ("RightArrow", 0xff53),
        ("F1", 0xffbe),
        ("F12", 0xffc9),
        ("F24", 0xffd5),
        ("Insert", 0xff63),
        ("Home", 0xff50),
        ("End", 0xff57),
        ("PageUp", 0xff55),
        ("PageDown", 0xff56),
        ("ScrollLock", 0xff14),
        ("Pause", 0xff13),
        ("SysReq", 0xff15),
        ("Stop", 0x1008ff28),
        ("Menu", 0xff67),
    ] {
        let (character, _) = lookup_key_name(name).expect(name);
        assert_eq!(map_key_sym(sym, 0), Some(character), "{name}");
    }
}

#[test]
fn other_keys_have_the_character_of_the_key_map() {
    assert_eq!(map_key_sym(0x61, 'a' as u32), Some('a'));
    assert_eq!(map_key_sym(0x1000000 + 0x20ac, 0x20ac), Some('€'));
    assert_eq!(map_key_sym(0xff08, 'x' as u32), Some('\u{8}'));
}

#[test]
fn a_number_that_is_no_character_has_no_text() {
    assert_eq!(map_key_sym(0x61, 0xd800), None);
    assert_eq!(map_key_sym(0x61, 0x110000), None);
    assert_eq!(map_key_sym(0xfe03, 0), Some('\0'));
}

#[test]
fn key_codes_are_offset() {
    assert_eq!(xkb_keycode(30), 38);
}

#[test]
fn control_alt_backspace_or_delete_quits() {
    assert!(is_quit_combination(0xff08, true, true, true));
    assert!(is_quit_combination(0xffff, true, true, true));
    assert!(!is_quit_combination(0xff08, false, true, true));
    assert!(!is_quit_combination(0xff08, true, false, true));
    assert!(!is_quit_combination(0xff08, true, true, false));
    assert!(!is_quit_combination(0x61, true, true, true));
}
