//! From key symbols to the text of key events.

use vstd::prelude::*;

verus! {

/// The key symbol of the backspace key.
pub const KEYSYM_BACKSPACE: u32 = 0xff08;

/// The key symbol of the delete key.
pub const KEYSYM_DELETE: u32 = 0xffff;

/// What the kernel's key codes are offset by in key maps.
pub const KEYCODE_OFFSET: u32 = 8;

/// The character that stands for a key with no text of its own: a control
/// character, or one of the range that is set aside for function keys.
pub open spec fn named_key(sym: u32) -> Option<char> {
    if sym == 0xff08 {
        Some('\u{0008}')
    } else if sym == 0xff09 {
        Some('\u{0009}')
    } else if sym == 0xff0d {
        Some('\u{000a}')
    } else if sym == 0xff1b {
        Some('\u{001b}')
    } else if sym == 0x1000ff74 {
        Some('\u{0019}')
    } else if sym == 0xffff {
        Some('\u{007f}')
    } else if sym == 0xffe1 {
        Some('\u{0010}')
    } else if sym == 0xffe3 {
        Some('\u{0011}')
    } else if sym == 0xffe9 {
        Some('\u{0012}')
    } else if sym == 0xff7e {
        Some('\u{0013}')
    } else if sym == 0xffe5 {
        Some('\u{0014}')
    } else if sym == 0xffe2 {
        Some('\u{0015}')
    } else if sym == 0xffe4 {
        Some('\u{0016}')
    } else if sym == 0xffe7 {
        Some('\u{0017}')
    } else if sym == 0xffe8 {
        Some('\u{0018}')
    } else if sym == 0x20 {
        Some('\u{0020}')
    } else if sym == 0xff52 {
        Some('\u{f700}')
    } else if sym == 0xff54 {
        Some('\u{f701}')
    } else if sym == 0xff51 {
        Some('\u{f702}')
    } else if sym == 0xff53 {
        Some('\u{f703}')
    } else if sym == 0xff63 {
        Some('\u{f727}')
    } else if sym == 0xff50 {
        Some('\u{f729}')
    } else if sym == 0xff57 {
        Some('\u{f72b}')
    } else if sym == 0xff55 {
        Some('\u{f72c}')
    } else if sym == 0xff56 {
        Some('\u{f72d}')
    } else if sym == 0xff14 {
        Some('\u{f72f}')
    } else if sym == 0xff13 {
        Some('\u{f730}')
    } else if sym == 0xff15 {
        Some('\u{f731}')
    } else if sym == 0x1008ff28 {
        Some('\u{f734}')
    } else if sym == 0xff67 {
        Some('\u{f735}')
    } else if 0xffbe <= sym <= 0xffd5 {
        Some((0xf704 + (sym - 0xffbe)) as char)
    } else {
        None
    }
}

/// `code` is the number of a character.
pub open spec fn is_scalar_value(code: u32) -> bool {
    code < 0xd800 || 0xe000 <= code <= 0x10ffff
}

/// The text of a key whose symbol is `sym` and for which the key map gives the
/// character number `utf32`.
pub open spec fn key_text(sym: u32, utf32: u32) -> Option<char> {
    match named_key(sym) {
        Some(c) => Some(c),
        None => if is_scalar_value(utf32) {
            Some(utf32 as char)
        } else {
            None
        },
    }
}

/// `char::from_u32` of the standard library: the character of that number, or
/// `None` for a number that is no Unicode scalar value.
#[verifier::external_body]
fn char_from_u32(code: u32) -> (c: Option<char>)
    ensures
        c == (if is_scalar_value(code) {
            Some(code as char)
        } else {
            None::<char>
        }),
{
    std::char::from_u32(code)
}

/// The text of the key with symbol `sym`: the character that stands for a named
/// key, else the character `utf32` that the key map gives for the symbol, if it
/// is one.
pub fn map_key_sym(sym: u32, utf32: u32) -> (text: Option<char>)
    ensures
        text == key_text(sym, utf32),
{
    match sym {
        0xff08 => Some('\u{0008}'),  // BackSpace
        0xff09 => Some('\u{0009}'),  // Tab
        0xff0d => Some('\u{000a}'),  // Return
        0xff1b => Some('\u{001b}'),  // Escape
        0x1000ff74 => Some('\u{0019}'),  // BackTab
        0xffff => Some('\u{007f}'),  // Delete
        0xffe1 => Some('\u{0010}'),  // Shift_L
        0xffe3 => Some('\u{0011}'),  // Control_L
        0xffe9 => Some('\u{0012}'),  // Alt_L
        0xff7e => Some('\u{0013}'),  // Mode_switch
        0xffe5 => Some('\u{0014}'),  // Caps_Lock
        0xffe2 => Some('\u{0015}'),  // Shift_R
        0xffe4 => Some('\u{0016}'),  // Control_R
        0xffe7 => Some('\u{0017}'),  // Meta_L
        0xffe8 => Some('\u{0018}'),  // Meta_R
        0x20 => Some('\u{0020}'),  // space
        0xff52 => Some('\u{f700}'),  // Up
        0xff54 => Some('\u{f701}'),  // Down
        0xff51 => Some('\u{f702}'),  // Left
        0xff53 => Some('\u{f703}'),  // Right
        0xffbe => Some('\u{f704}'),  // F1
        0xffbf => Some('\u{f705}'),  // F2
        0xffc0 => Some('\u{f706}'),  // F3
        0xffc1 => Some('\u{f707}'),  // F4
        0xffc2 => Some('\u{f708}'),  // F5
        0xffc3 => Some('\u{f709}'),  // F6
        0xffc4 => Some('\u{f70a}'),  // F7
        0xffc5 => Some('\u{f70b}'),  // F8
        0xffc6 => Some('\u{f70c}'),  // F9
        0xffc7 => Some('\u{f70d}'),  // F10
        0xffc8 => Some('\u{f70e}'),  // F11
        0xffc9 => Some('\u{f70f}'),  // F12
        0xffca => Some('\u{f710}'),  // F13
        0xffcb => Some('\u{f711}'),  // F14
        0xffcc => Some('\u{f712}'),  // F15
        0xffcd => Some('\u{f713}'),  // F16
        0xffce => Some('\u{f714}'),  // F17
        0xffcf => Some('\u{f715}'),  // F18
        0xffd0 => Some('\u{f716}'),  // F19
        0xffd1 => Some('\u{f717}'),  // F20
        0xffd2 => Some('\u{f718}'),  // F21
        0xffd3 => Some('\u{f719}'),  // F22
        0xffd4 => Some('\u{f71a}'),  // F23
        0xffd5 => Some('\u{f71b}'),  // F24
        0xff63 => Some('\u{f727}'),  // Insert
        0xff50 => Some('\u{f729}'),  // Home
        0xff57 => Some('\u{f72b}'),  // End
        0xff55 => Some('\u{f72c}'),  // Page_Up
        0xff56 => Some('\u{f72d}'),  // Page_Down
        0xff14 => Some('\u{f72f}'),  // Scroll_Lock
        0xff13 => Some('\u{f730}'),  // Pause
        0xff15 => Some('\u{f731}'),  // Sys_Req
        0x1008ff28 => Some('\u{f734}'),  // XF86_Stop
        0xff67 => Some('\u{f735}'),  // Menu
        _ => char_from_u32(utf32),
    }
}

/// The key map's code of a key that the kernel reports as `key`.
pub fn xkb_keycode(key: u32) -> (code: u32)
    requires
        key + KEYCODE_OFFSET <= u32::MAX,
    ensures
        code == key + KEYCODE_OFFSET,
        code == key + 8,
{
    key + KEYCODE_OFFSET
}

/// Control, Alt and Backspace, or Control, Alt and Delete: leave the program.
pub open spec fn quits(sym: u32, pressed: bool, control: bool, alt: bool) -> bool {
    pressed && (sym == KEYSYM_DELETE || sym == KEYSYM_BACKSPACE) && alt && control
}

/// Whether a key event asks to leave the program.
pub fn is_quit_combination(sym: u32, pressed: bool, control: bool, alt: bool) -> (quit: bool)
    ensures
        quit == quits(sym, pressed, control, alt),
{
    pressed && (sym == KEYSYM_DELETE || sym == KEYSYM_BACKSPACE) && alt && control
}

/// Two different key symbols never stand for the same named key.
pub proof fn named_keys_are_told_apart(a: u32, b: u32)
    requires
        named_key(a) is Some,
        named_key(a) == named_key(b),
    ensures
        a == b,
{
}

/// A key types the very character that the key map gives for it, if that number is
/// one of a character at all, and else nothing. This holds of every symbol but the
/// space, the function keys and the two that are set apart for named keys.
pub proof fn a_key_types_its_character(sym: u32, utf32: u32)
    requires
        sym != 0x20,
        sym < 0xff08 || 0xffff < sym,
        sym != 0x1000_ff74,
        sym != 0x1008_ff28,
    ensures
        utf32 < 0xd800 || 0xe000 <= utf32 <= 0x10_ffff ==> (key_text(sym, utf32) matches Some(c)
            && c as u32 == utf32),
        0xd800 <= utf32 < 0xe000 || 0x10_ffff < utf32 ==> key_text(sym, utf32) is None,
{
}

/// Two keys without a name type the same character only if the key map gives the
/// same number for both, and each types that one.
pub proof fn different_characters_are_typed_differently(
    a: u32,
    b: u32,
    utf32_a: u32,
    utf32_b: u32,
)
    requires
        named_key(a) is None,
        named_key(b) is None,
        key_text(a, utf32_a) is Some,
        key_text(a, utf32_a) == key_text(b, utf32_b),
    ensures
        utf32_a == utf32_b,
        key_text(a, utf32_a) == Some(utf32_a as char),
{
}

/// The text of a named key is the same whatever character the key map gives for
/// it, and a key without a name has no other text than that character.
pub proof fn a_name_goes_before_the_character(sym: u32, utf32: u32, other: u32)
    ensures
        named_key(sym) is Some ==> key_text(sym, utf32) == named_key(sym) && key_text(sym, other)
            == named_key(sym),
        named_key(sym) is None && (utf32 < 0xd800 || 0xe000 <= utf32 <= 0x10_ffff) ==> key_text(
            sym,
            utf32,
        ) == Some(utf32 as char),
        named_key(sym) is None && !(utf32 < 0xd800 || 0xe000 <= utf32 <= 0x10_ffff) ==> key_text(
            sym,
            utf32,
        ) is None,
{
}

/// The function keys follow each other, and so do their characters.
pub proof fn function_keys_are_counted(n: u32, utf32: u32)
    requires
        1 <= n <= 24,
    ensures
        key_text((0xffbd + n) as u32, utf32) matches Some(c) && c as u32 == 0xf703 + n,
{
}

/// Each named key has its character, whatever the key map gives for it: a control
/// character for the editing keys and the modifiers, one of the private range for
/// the rest.
pub proof fn named_keys_have_their_characters(utf32: u32)
    ensures
        // Backspace, Tab, Return, Escape, back Tab, Delete and the space.
        key_text(0xff08, utf32) == Some('\u{0008}'),
        key_text(0xff09, utf32) == Some('\u{0009}'),
        key_text(0xff0d, utf32) == Some('\u{000a}'),
        key_text(0xff1b, utf32) == Some('\u{001b}'),
        key_text(0x1000_ff74, utf32) == Some('\u{0019}'),
        key_text(0xffff, utf32) == Some('\u{007f}'),
        key_text(0x20, utf32) == Some('\u{0020}'),
        // Shift, Control, Alt, the mode switch and Caps Lock; the right-hand Shift
        // and Control; Meta on both sides.
        key_text(0xffe1, utf32) == Some('\u{0010}'),
        key_text(0xffe3, utf32) == Some('\u{0011}'),
        key_text(0xffe9, utf32) == Some('\u{0012}'),
        key_text(0xff7e, utf32) == Some('\u{0013}'),
        key_text(0xffe5, utf32) == Some('\u{0014}'),
        key_text(0xffe2, utf32) == Some('\u{0015}'),
        key_text(0xffe4, utf32) == Some('\u{0016}'),
        key_text(0xffe7, utf32) == Some('\u{0017}'),
        key_text(0xffe8, utf32) == Some('\u{0018}'),
        // The arrows: up, down, left and right.
        key_text(0xff52, utf32) == Some('\u{f700}'),
        key_text(0xff54, utf32) == Some('\u{f701}'),
        key_text(0xff51, utf32) == Some('\u{f702}'),
        key_text(0xff53, utf32) == Some('\u{f703}'),
        // Insert, Home, End, page up and down, Scroll Lock, Pause, System Request,
        // Stop and Menu.
        key_text(0xff63, utf32) == Some('\u{f727}'),
        key_text(0xff50, utf32) == Some('\u{f729}'),
        key_text(0xff57, utf32) == Some('\u{f72b}'),
        key_text(0xff55, utf32) == Some('\u{f72c}'),
        key_text(0xff56, utf32) == Some('\u{f72d}'),
        key_text(0xff14, utf32) == Some('\u{f72f}'),
        key_text(0xff13, utf32) == Some('\u{f730}'),
        key_text(0xff15, utf32) == Some('\u{f731}'),
        key_text(0x1008_ff28, utf32) == Some('\u{f734}'),
        key_text(0xff67, utf32) == Some('\u{f735}'),
{
}

/// No key has a name but these: of the range of function keys the others type
/// what the key map gives for them, as every key outside of it does.
pub proof fn no_other_key_is_named(sym: u32)
    requires
        named_key(sym) is Some,
    ensures
        0xffbe <= sym <= 0xffd5 || 0xff50 <= sym <= 0xff57 || 0xffe1 <= sym <= 0xffe5 || 0xff13 <= sym
            <= 0xff15 || sym == 0xff08 || sym == 0xff09 || sym == 0xff0d || sym == 0xff1b || sym
            == 0xffff || sym == 0xff63 || sym == 0xff67 || sym == 0xff7e || sym == 0x20 || sym
            == 0xffe7 || sym == 0xffe8 || sym == 0xffe9 || sym == 0x1000_ff74 || sym
            == 0x1008_ff28,
{
}

/// The program is left on a key press with both Control and Alt held, of
/// Backspace or of Delete; without any one of these it is not.
pub proof fn only_control_alt_backspace_or_delete_quits(
    sym: u32,
    pressed: bool,
    control: bool,
    alt: bool,
)
    ensures
        quits(0xff08, true, true, true),
        quits(0xffff, true, true, true),
        quits(sym, pressed, control, alt) ==> pressed && control && alt && (sym == 0xff08 || sym
            == 0xffff),
{
}

} // verus!
