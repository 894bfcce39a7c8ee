//! Small pieces of text that messages are put together from.

use vstd::prelude::*;

verus! {

/// One decimal digit.
pub open spec fn digit_text(d: int) -> Seq<char> {
    if d == 0 {
        "0"@
    } else if d == 1 {
        "1"@
    } else if d == 2 {
        "2"@
    } else if d == 3 {
        "3"@
    } else if d == 4 {
        "4"@
    } else if d == 5 {
        "5"@
    } else if d == 6 {
        "6"@
    } else if d == 7 {
        "7"@
    } else if d == 8 {
        "8"@
    } else {
        "9"@
    }
}

/// A number in decimal, without leading zeros.
pub open spec fn decimal_text(n: nat) -> Seq<char>
    decreases n,
{
    if n < 10 {
        digit_text(n as int)
    } else {
        decimal_text(n / 10) + digit_text((n % 10) as int)
    }
}

/// Appends one decimal digit.
fn append_digit(text: &mut String, d: u8)
    requires
        d < 10,
    ensures
        final(text)@ == old(text)@ + digit_text(d as int),
{
    let digit: &str = match d {
        0 => "0",
        1 => "1",
        2 => "2",
        3 => "3",
        4 => "4",
        5 => "5",
        6 => "6",
        7 => "7",
        8 => "8",
        _ => "9",
    };
    text.append(digit);
}

/// Appends a number in decimal.
pub fn append_decimal(text: &mut String, n: u8)
    ensures
        final(text)@ == old(text)@ + decimal_text(n as nat),
    decreases n,
{
    if n >= 10 {
        append_decimal(text, n / 10);
    }
    append_digit(text, n % 10);
    assert(text@ =~= old(text)@ + decimal_text(n as nat));
}

/// Each number is written with one more digit than a tenth of it, the last digit
/// standing for what is left; a number below ten has just that digit.
pub proof fn numbers_are_written_digit_by_digit(n: nat)
    ensures
        decimal_text(n).len() > 0,
        decimal_text(n).last() as u32 == 0x30 + n % 10,
        n < 10 ==> decimal_text(n).len() == 1,
        n >= 10 ==> decimal_text(n).drop_last() == decimal_text(n / 10),
    decreases n,
{
    reveal_strlit("0");
    reveal_strlit("1");
    reveal_strlit("2");
    reveal_strlit("3");
    reveal_strlit("4");
    reveal_strlit("5");
    reveal_strlit("6");
    reveal_strlit("7");
    reveal_strlit("8");
    reveal_strlit("9");
    if n >= 10 {
        numbers_are_written_digit_by_digit(n / 10);
        assert(digit_text((n % 10) as int).len() == 1);
        assert(decimal_text(n).drop_last() =~= decimal_text(n / 10));
    }
}

/// Two different numbers are never written alike.
pub proof fn numbers_are_told_apart(a: nat, b: nat)
    requires
        decimal_text(a) == decimal_text(b),
    ensures
        a == b,
    decreases a,
{
    numbers_are_written_digit_by_digit(a);
    numbers_are_written_digit_by_digit(b);
    if a >= 10 {
        numbers_are_written_digit_by_digit(a / 10);
    }
    if b >= 10 {
        numbers_are_written_digit_by_digit(b / 10);
    }
    if a >= 10 && b >= 10 {
        numbers_are_told_apart(a / 10, b / 10);
    }
}

} // verus!
