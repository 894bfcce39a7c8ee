//! Device paths, as the bytes they are made of.

use vstd::prelude::*;
use vstd::utf8::{decode_utf8, valid_utf8};

verus! {

/// What separates the components of a path.
pub const SEPARATOR: u8 = 0x2f;

/// The dot, which alone names the directory it stands in.
pub const DOT: u8 = 0x2e;

/// The path starts at the root.
pub open spec fn is_absolute_path(path: Seq<u8>) -> bool {
    path.len() > 0 && path[0] == SEPARATOR
}

/// Where the last component starts: behind the last separator.
pub open spec fn last_component_start(path: Seq<u8>) -> int
    decreases path.len(),
{
    if path.len() == 0 {
        0
    } else if path.last() == SEPARATOR {
        path.len() as int
    } else {
        last_component_start(path.drop_last())
    }
}

/// The path ends in something that names nothing of its own: a separator, or a
/// dot behind one.
pub open spec fn ends_in_nothing(path: Seq<u8>) -> bool {
    path.len() > 0 && (path.last() == SEPARATOR || (path.len() > 1 && path.last() == DOT && path[
    path.len() - 2] == SEPARATOR))
}

/// The name of the file that the path leads to: its last component. There is
/// none at the root, for the current directory alone, and where the path goes
/// up last.
pub open spec fn file_name_of(path: Seq<u8>) -> Option<Seq<u8>>
    decreases path.len(),
{
    if ends_in_nothing(path) {
        file_name_of(path.drop_last())
    } else {
        let name = path.skip(last_component_start(path));
        if name.len() == 0 || name == seq![DOT] || name == seq![DOT, DOT] {
            None
        } else {
            Some(name)
        }
    }
}

/// The components of a path, in order. The root is one, made of the separator;
/// separators between components do not count, nor does the current directory
/// but at the start.
pub open spec fn components_of(path: Seq<u8>) -> Seq<Seq<u8>>
    decreases path.len(),
{
    if path.len() == 0 {
        Seq::empty()
    } else if path.last() == SEPARATOR {
        if path.len() == 1 {
            seq![path]
        } else {
            components_of(path.drop_last())
        }
    } else {
        proof {
            the_last_component_starts_within(path);
        }
        let start = last_component_start(path);
        let before = components_of(path.take(start));
        let name = path.skip(start);
        if name == seq![DOT] && start > 0 {
            before
        } else {
            before.push(name)
        }
    }
}

/// The paths are the same, component by component.
pub open spec fn same_path(a: Seq<u8>, b: Seq<u8>) -> bool {
    components_of(a) == components_of(b)
}

/// The last component starts within the path, and before its end unless the path
/// ends in a separator.
pub proof fn the_last_component_starts_within(path: Seq<u8>)
    ensures
        0 <= last_component_start(path) <= path.len(),
        path.len() > 0 && path.last() != SEPARATOR ==> last_component_start(path) < path.len(),
    decreases path.len(),
{
    if path.len() > 0 && path.last() != SEPARATOR {
        the_last_component_starts_within(path.drop_last());
    }
}

/// A number in decimal digits.
pub open spec fn decimal_bytes(n: nat) -> Seq<u8>
    decreases n,
{
    if n < 10 {
        seq![(0x30 + n) as u8]
    } else {
        decimal_bytes(n / 10).push((0x30 + n % 10) as u8)
    }
}

/// The file name of a display card: `card` and its number.
pub open spec fn card_file_name(card: u8) -> Seq<u8> {
    seq![0x63u8, 0x61u8, 0x72u8, 0x64u8] + decimal_bytes(card as nat)
}

/// The path leads to the display card `card`.
pub open spec fn names_card(path: Seq<u8>, card: u8) -> bool {
    file_name_of(path) == Some(card_file_name(card))
}

/// Whether the path starts at the root.
pub fn is_absolute(path: &[u8]) -> (b: bool)
    ensures
        b == is_absolute_path(path@),
{
    path.len() > 0 && path[0] == SEPARATOR
}

/// Where the last component of a path starts.
fn find_component_start(path: &[u8]) -> (start: usize)
    ensures
        start == last_component_start(path@),
        start <= path@.len(),
{
    let mut start: usize = path.len();
    assert(path@.take(start as int) =~= path@);
    while start > 0 && path[start - 1] != SEPARATOR
        invariant
            0 <= start <= path@.len(),
            last_component_start(path@) == last_component_start(path@.take(start as int)),
        decreases start,
    {
        assert(path@.take(start as int).drop_last() =~= path@.take(start - 1));
        assert(path@.take(start as int).last() == path@[start - 1]);
        start -= 1;
    }
    assert(start > 0 ==> path@.take(start as int).last() == path@[start - 1]);
    start
}

/// The name of the file that the path leads to.
pub fn file_name(path: &[u8]) -> (name: Option<&[u8]>)
    ensures
        match name {
            Some(name) => file_name_of(path@) == Some(name@),
            None => file_name_of(path@) is None,
        },
{
    let mut end: usize = path.len();
    assert(path@.take(end as int) =~= path@);
    while end > 0 && (path[end - 1] == SEPARATOR || (end > 1 && path[end - 1] == DOT && path[end
        - 2] == SEPARATOR))
        invariant
            0 <= end <= path@.len(),
            file_name_of(path@) == file_name_of(path@.take(end as int)),
        decreases end,
    {
        assert(path@.take(end as int).drop_last() =~= path@.take(end - 1));
        end -= 1;
    }
    let trimmed = vstd::slice::slice_subrange(path, 0, end);
    assert(trimmed@ =~= path@.take(end as int));
    let start: usize = find_component_start(trimmed);
    let name = vstd::slice::slice_subrange(path, start, end);
    assert(name@ =~= trimmed@.skip(start as int));
    assert(!ends_in_nothing(trimmed@));
    if name.len() == 0 {
        None
    } else if name.len() == 1 && name[0] == DOT {
        assert(name@ =~= seq![DOT]);
        None
    } else if name.len() == 2 && name[0] == DOT && name[1] == DOT {
        assert(name@ =~= seq![DOT, DOT]);
        None
    } else {
        Some(name)
    }
}

/// Appends a number in decimal digits.
fn push_decimal(bytes: &mut Vec<u8>, n: u8)
    ensures
        final(bytes)@ == old(bytes)@ + decimal_bytes(n as nat),
    decreases n,
{
    if n >= 10 {
        push_decimal(bytes, n / 10);
    }
    bytes.push(0x30 + n % 10);
    assert(bytes@ =~= old(bytes)@ + decimal_bytes(n as nat));
}

/// Whether two byte strings are the same.
fn same_bytes(a: &[u8], b: &[u8]) -> (same: bool)
    ensures
        same == (a@ == b@),
{
    if a.len() != b.len() {
        return false;
    }
    let mut i: usize = 0;
    while i < a.len()
        invariant
            0 <= i <= a@.len(),
            a@.len() == b@.len(),
            forall|j: int| 0 <= j < i ==> #[trigger] a@[j] == b@[j],
        decreases a@.len() - i,
    {
        if a[i] != b[i] {
            return false;
        }
        i += 1;
    }
    assert(a@ =~= b@);
    true
}

/// The last component of a path, with the path before it.
fn pop_component(path: &[u8]) -> (popped: Option<(&[u8], &[u8])>)
    ensures
        match popped {
            Some((before, name)) => {
                &&& before@.len() < path@.len()
                &&& components_of(path@) == components_of(before@).push(name@)
            },
            None => components_of(path@) == Seq::<Seq<u8>>::empty(),
        },
{
    let mut end: usize = path.len();
    assert(path@.take(end as int) =~= path@);
    while end > 0
        invariant
            0 <= end <= path@.len(),
            components_of(path@) == components_of(path@.take(end as int)),
        decreases end,
    {
        let rest = vstd::slice::slice_subrange(path, 0, end);
        assert(rest@ =~= path@.take(end as int));
        if path[end - 1] == SEPARATOR {
            if end == 1 {
                let before = vstd::slice::slice_subrange(path, 0, 0);
                assert(before@ =~= Seq::<u8>::empty());
                assert(components_of(before@) =~= Seq::<Seq<u8>>::empty());
                assert(components_of(rest@) =~= components_of(before@).push(rest@));
                return Some((before, rest));
            }
            assert(rest@.drop_last() =~= path@.take(end - 1));
            end -= 1;
        } else {
            let start: usize = find_component_start(rest);
            proof {
                the_last_component_starts_within(rest@);
            }
            let before = vstd::slice::slice_subrange(path, 0, start);
            let name = vstd::slice::slice_subrange(path, start, end);
            assert(before@ =~= rest@.take(start as int));
            assert(name@ =~= rest@.skip(start as int));
            if start > 0 && name.len() == 1 && name[0] == DOT {
                assert(name@ =~= seq![DOT]);
                assert(before@ =~= path@.take(start as int));
                end = start;
            } else {
                return Some((before, name));
            }
        }
    }
    assert(path@.take(0) =~= Seq::<u8>::empty());
    None
}

/// Whether two paths are the same, component by component.
pub fn is_same_path(a: &[u8], b: &[u8]) -> (same: bool)
    ensures
        same == same_path(a@, b@),
{
    let (mut left, mut right): (&[u8], &[u8]) = (a, b);
    loop
        invariant
            same_path(a@, b@) == same_path(left@, right@),
        decreases left@.len(),
    {
        match (pop_component(left), pop_component(right)) {
            (None, None) => {
                return true;
            },
            (Some((left_before, left_name)), Some((right_before, right_name))) => {
                let ghost (lc, rc) = (components_of(left@), components_of(right@));
                proof {
                    assert(lc.last() == left_name@ && rc.last() == right_name@);
                    assert(lc.drop_last() =~= components_of(left_before@));
                    assert(rc.drop_last() =~= components_of(right_before@));
                }
                if !same_bytes(left_name, right_name) {
                    return false;
                }
                left = left_before;
                right = right_before;
            },
            (Some((left_before, left_name)), None) => {
                assert(components_of(left@).len() > 0);
                return false;
            },
            (None, Some((right_before, right_name))) => {
                assert(components_of(right@).len() > 0);
                return false;
            },
        }
    }
}

/// Whether the path leads to the display card `card`.
pub fn is_card(path: &[u8], card: u8) -> (b: bool)
    ensures
        b == names_card(path@, card),
{
    let mut wanted: Vec<u8> = Vec::new();
    wanted.push(0x63);
    wanted.push(0x61);
    wanted.push(0x72);
    wanted.push(0x64);
    assert(wanted@ =~= seq![0x63u8, 0x61u8, 0x72u8, 0x64u8]);
    push_decimal(&mut wanted, card);
    match file_name(path) {
        Some(name) => same_bytes(name, wanted.as_slice()),
        None => false,
    }
}

/// The text of bytes that need not be text, with a replacement character for
/// what is none.
pub uninterp spec fn lossy_text(bytes: Seq<u8>) -> Seq<char>;

/// `String::from_utf8_lossy` of the standard library. Bytes that are UTF-8 come
/// out as the text they encode; what stands for other bytes is only named.
#[verifier::external_body]
pub(crate) fn display_path(path: &[u8]) -> (text: String)
    ensures
        text@ == lossy_text(path@),
        valid_utf8(path@) ==> text@ == decode_utf8(path@),
{
    String::from_utf8_lossy(path).into_owned()
}

/// `str::from_utf8` of the standard library: the text that the bytes encode, or
/// `None` if they are no UTF-8.
#[verifier::external_body]
pub(crate) fn path_str(path: &[u8]) -> (text: Option<&str>)
    ensures
        text is Some <==> valid_utf8(path@),
        text matches Some(text) ==> text@ == decode_utf8(path@),
{
    std::str::from_utf8(path).ok()
}

/// Two cards never have the same file name.
pub proof fn card_names_are_told_apart(path: Seq<u8>, a: u8, b: u8)
    requires
        names_card(path, a),
        names_card(path, b),
    ensures
        a == b,
{
    let da = decimal_bytes(a as nat);
    let db = decimal_bytes(b as nat);
    assert(card_file_name(a).skip(4) =~= da);
    assert(card_file_name(b).skip(4) =~= db);
    lemma_decimal_bytes_differ(a as nat, b as nat);
}

/// Two numbers with the same digits are the same.
proof fn lemma_decimal_bytes_differ(a: nat, b: nat)
    requires
        decimal_bytes(a) == decimal_bytes(b),
    ensures
        a == b,
    decreases a,
{
    lemma_decimal_bytes_len(a);
    lemma_decimal_bytes_len(b);
    assert(decimal_bytes(a).last() == 0x30 + a % 10);
    assert(decimal_bytes(b).last() == 0x30 + b % 10);
    if a >= 10 {
        lemma_decimal_bytes_len(a / 10);
    }
    if b >= 10 {
        lemma_decimal_bytes_len(b / 10);
    }
    if a >= 10 && b >= 10 {
        assert(decimal_bytes(a).drop_last() =~= decimal_bytes(a / 10));
        assert(decimal_bytes(b).drop_last() =~= decimal_bytes(b / 10));
        lemma_decimal_bytes_differ(a / 10, b / 10);
    }
}

/// A number has at least one digit.
proof fn lemma_decimal_bytes_len(n: nat)
    ensures
        decimal_bytes(n).len() > 0,
{
}

/// Whatever directory it is in, the file name of an absolute path to a card is
/// the card's.
pub proof fn a_card_is_found_by_its_file_name(directory: Seq<u8>, card: u8)
    ensures
        names_card(directory.push(SEPARATOR) + card_file_name(card), card),
{
    let name = card_file_name(card);
    let path = directory.push(SEPARATOR) + name;
    lemma_digits(card as nat);
    lemma_decimal_bytes_len(card as nat);
    assert forall|i: int| 0 <= i < name.len() implies #[trigger] name[i] != SEPARATOR && name[i]
        != DOT by {
        if i >= 4 {
            assert(name[i] == decimal_bytes(card as nat)[i - 4]);
        }
    }
    assert(path.last() == name.last());
    lemma_start_behind(directory, name);
    assert(path.skip(directory.len() as int + 1) =~= name);
    assert(name[0] == 0x63);
}

/// A number consists of digits.
proof fn lemma_digits(n: nat)
    ensures
        forall|i: int|
            0 <= i < decimal_bytes(n).len() ==> 0x30 <= #[trigger] decimal_bytes(n)[i] <= 0x39,
    decreases n,
{
    if n >= 10 {
        lemma_digits(n / 10);
        let before = decimal_bytes(n / 10);
        assert forall|i: int| 0 <= i < decimal_bytes(n).len() implies 0x30
            <= #[trigger] decimal_bytes(n)[i] <= 0x39 by {
            if i < before.len() {
                assert(decimal_bytes(n)[i] == before[i]);
            }
        }
    }
}

/// The last component is what stands behind a separator, if it holds none.
proof fn lemma_start_behind(directory: Seq<u8>, name: Seq<u8>)
    requires
        forall|i: int| 0 <= i < name.len() ==> #[trigger] name[i] != SEPARATOR,
    ensures
        last_component_start(directory.push(SEPARATOR) + name) == directory.len() + 1,
    decreases name.len(),
{
    let path = directory.push(SEPARATOR) + name;
    if name.len() > 0 {
        assert(path.last() == name[name.len() - 1]);
        assert(path.drop_last() =~= directory.push(SEPARATOR) + name.drop_last());
        lemma_start_behind(directory, name.drop_last());
    } else {
        assert(path.last() == SEPARATOR);
    }
}

/// The name of the file that a path leads to is its last component, unless that
/// is the root, the current directory or the way up.
pub proof fn the_file_name_is_the_last_component(path: Seq<u8>)
    ensures
        match file_name_of(path) {
            Some(name) => components_of(path).len() > 0 && components_of(path).last() == name,
            None => components_of(path).len() == 0 || components_of(path).last() == seq![SEPARATOR]
                || components_of(path).last() == seq![DOT] || components_of(path).last() == seq![
                DOT,
                DOT,
            ],
        },
    decreases path.len(),
{
    the_last_component_starts_within(path);
    if path.len() == 1 && path.last() == SEPARATOR {
        assert(path =~= seq![SEPARATOR]);
        assert(path.drop_last() =~= Seq::<u8>::empty());
        assert(file_name_of(path.drop_last()) is None);
    } else if ends_in_nothing(path) {
        the_file_name_is_the_last_component(path.drop_last());
        if path.last() != SEPARATOR {
            let n = path.len() - 1;
            assert(path.drop_last().last() == SEPARATOR);
            assert(last_component_start(path) == n);
            assert(path.skip(n) =~= seq![DOT]);
            assert(path.take(n) =~= path.drop_last());
        }
    } else if path.len() > 0 {
        let start = last_component_start(path);
        let name = path.skip(start);
        if name == seq![DOT] && start > 0 {
            lemma_separator_before(path);
            assert(path[start] == name[0]);
            assert(path.len() == start + 1);
        }
    }
}

/// What stands before the last component is a separator.
proof fn lemma_separator_before(path: Seq<u8>)
    ensures
        last_component_start(path) > 0 ==> path[last_component_start(path) - 1] == SEPARATOR,
    decreases path.len(),
{
    the_last_component_starts_within(path);
    if path.len() > 0 && path.last() != SEPARATOR {
        lemma_separator_before(path.drop_last());
        the_last_component_starts_within(path.drop_last());
    }
}

/// A path starts at the root exactly if its first byte is a slash.
pub proof fn absolute_paths_start_with_a_slash(first: u8, rest: Seq<u8>)
    ensures
        is_absolute_path(seq![first] + rest) <==> first == 0x2f,
        !is_absolute_path(Seq::empty()),
{
    assert((seq![first] + rest)[0] == first);
}

/// A name that stands in no directory is the last component, from the start.
proof fn lemma_start_of_a_name(name: Seq<u8>)
    requires
        forall|i: int| 0 <= i < name.len() ==> #[trigger] name[i] != SEPARATOR,
    ensures
        last_component_start(name) == 0,
    decreases name.len(),
{
    if name.len() > 0 {
        assert(name[name.len() - 1] != SEPARATOR);
        lemma_start_of_a_name(name.drop_last());
    }
}

/// A path leads to the file whose name stands behind the last slash, or is all of
/// it, unless that is a dot or two.
pub proof fn the_name_stands_behind_the_last_slash(directory: Seq<u8>, name: Seq<u8>)
    requires
        name.len() > 0,
        forall|i: int| 0 <= i < name.len() ==> #[trigger] name[i] != 0x2f,
        name != seq![0x2eu8],
        name != seq![0x2eu8, 0x2eu8],
    ensures
        file_name_of(directory.push(0x2f) + name) == Some(name),
        file_name_of(name) == Some(name),
{
    let path = directory.push(SEPARATOR) + name;
    let n = directory.len() as int + 1;
    lemma_start_behind(directory, name);
    lemma_start_of_a_name(name);
    assert(path.skip(n) =~= name);
    assert(name.skip(0) =~= name);
    assert(path.last() == name[name.len() - 1]);
    assert(name.last() == name[name.len() - 1]);
    if ends_in_nothing(path) {
        assert(path[path.len() - 2] == SEPARATOR);
        if name.len() > 1 {
            assert(path[path.len() - 2] == name[name.len() - 2]);
        } else {
            assert(name =~= seq![DOT]);
        }
    }
    if ends_in_nothing(name) {
        assert(name[name.len() - 2] == SEPARATOR);
    }
}

/// Slashes at the end, and a dot behind one, do not change which file a path leads
/// to. A path that goes up last, the current directory alone and the empty path
/// lead to none.
pub proof fn what_names_nothing_is_passed_over(path: Seq<u8>)
    ensures
        file_name_of(path.push(0x2f)) == file_name_of(path),
        file_name_of(path + seq![0x2fu8, 0x2eu8]) == file_name_of(path),
        file_name_of(path + seq![0x2fu8, 0x2eu8, 0x2eu8]) is None,
        file_name_of(seq![0x2eu8, 0x2eu8]) is None,
        file_name_of(seq![0x2eu8]) is None,
        file_name_of(Seq::empty()) is None,
{
    let slash = path.push(SEPARATOR);
    assert(slash.drop_last() =~= path);
    let dot = path + seq![SEPARATOR, DOT];
    assert(dot.drop_last() =~= slash);
    let up = seq![DOT, DOT];
    let above = path + seq![SEPARATOR, DOT, DOT];
    assert(above =~= slash + up);
    lemma_start_behind(path, up);
    assert(above.skip(path.len() as int + 1) =~= up);
    assert(!ends_in_nothing(above));
    lemma_start_of_a_name(up);
    assert(up.skip(0) =~= up);
    let here = seq![DOT];
    lemma_start_of_a_name(here);
    assert(here.skip(0) =~= here);
    assert(Seq::<u8>::empty().skip(0).len() == 0);
}

/// Digits are read back as the number that was written: the last one is what is
/// left of it, those before it are the tenth part, and a number below ten has just
/// one.
pub proof fn digits_are_written_by_place(n: nat)
    ensures
        decimal_bytes(n).len() > 0,
        decimal_bytes(n).last() == 0x30 + n % 10,
        n < 10 ==> decimal_bytes(n).len() == 1,
        n >= 10 ==> decimal_bytes(n).drop_last() == decimal_bytes(n / 10),
{
    if n >= 10 {
        assert(decimal_bytes(n).drop_last() =~= decimal_bytes(n / 10));
    }
}

/// A path leads to a card exactly if the file it leads to is named `card` and the
/// card's number, in that spelling and with nothing more.
pub proof fn a_card_is_known_by_its_whole_name(path: Seq<u8>, card: u8)
    ensures
        names_card(path, card) <==> (file_name_of(path) matches Some(name) && {
            &&& name.len() > 4
            &&& name[0] == 0x63 && name[1] == 0x61 && name[2] == 0x72 && name[3] == 0x64
            &&& name.skip(4) == decimal_bytes(card as nat)
        }),
{
    let wanted = card_file_name(card);
    lemma_decimal_bytes_len(card as nat);
    assert(wanted.skip(4) =~= decimal_bytes(card as nat));
    assert(wanted[0] == 0x63 && wanted[1] == 0x61 && wanted[2] == 0x72 && wanted[3] == 0x64);
    if let Some(name) = file_name_of(path) {
        if name.len() > 4 && name[0] == 0x63 && name[1] == 0x61 && name[2] == 0x72 && name[3]
            == 0x64 && name.skip(4) == decimal_bytes(card as nat) {
            assert(name.take(4) =~= seq![0x63u8, 0x61u8, 0x72u8, 0x64u8]);
            assert(name =~= name.take(4) + name.skip(4));
        }
    }
}

/// A path is the components before its last slash and the name behind it. A slash
/// more makes no difference, nor does a dot between slashes; the root and a leading
/// dot are components of their own.
pub proof fn components_are_what_slashes_part(path: Seq<u8>, name: Seq<u8>)
    requires
        name.len() > 0,
        forall|i: int| 0 <= i < name.len() ==> #[trigger] name[i] != 0x2f,
    ensures
        components_of(Seq::empty()) == Seq::<Seq<u8>>::empty(),
        components_of(seq![0x2fu8]) == seq![seq![0x2fu8]],
        components_of(name) == seq![name],
        path.len() > 0 ==> components_of(path.push(0x2f)) == components_of(path),
        name != seq![0x2eu8] ==> components_of(path.push(0x2f) + name) == components_of(
            path.push(0x2f),
        ).push(name),
        name == seq![0x2eu8] ==> components_of(path.push(0x2f) + name) == components_of(
            path.push(0x2f),
        ),
{
    let slash = path.push(SEPARATOR);
    assert(slash.drop_last() =~= path);
    let whole = slash + name;
    lemma_start_behind(path, name);
    lemma_start_of_a_name(name);
    assert(whole.last() == name[name.len() - 1]);
    assert(name.last() == name[name.len() - 1]);
    assert(whole.skip(path.len() as int + 1) =~= name);
    assert(whole.take(path.len() as int + 1) =~= slash);
    assert(name.skip(0) =~= name);
    assert(name.take(0) =~= Seq::<u8>::empty());
    assert(components_of(name.take(0)) =~= Seq::<Seq<u8>>::empty());
    assert(components_of(name) =~= seq![name]);
}

/// Being the same path is an equivalence, which slashes and dots in between do not
/// break; and two paths to files are the same exactly if their directories and
/// their names are.
pub proof fn same_paths_have_the_same_components(
    a: Seq<u8>,
    b: Seq<u8>,
    c: Seq<u8>,
    name: Seq<u8>,
    other: Seq<u8>,
)
    requires
        name.len() > 0,
        other.len() > 0,
        forall|i: int| 0 <= i < name.len() ==> #[trigger] name[i] != 0x2f,
        forall|i: int| 0 <= i < other.len() ==> #[trigger] other[i] != 0x2f,
        name != seq![0x2eu8],
        other != seq![0x2eu8],
    ensures
        same_path(a, a),
        same_path(a, b) ==> same_path(b, a),
        same_path(a, b) && same_path(b, c) ==> same_path(a, c),
        same_path(a, b) <==> components_of(a) == components_of(b),
        a.len() > 0 ==> same_path(a.push(0x2f), a),
        a.len() > 0 ==> same_path(a.push(0x2f).push(0x2f) + name, a.push(0x2f) + name),
        same_path(a.push(0x2f) + name, b.push(0x2f) + other) <==> same_path(
            a.push(0x2f),
            b.push(0x2f),
        ) && name == other,
{
    components_are_what_slashes_part(a, name);
    components_are_what_slashes_part(b, other);
    components_are_what_slashes_part(a.push(SEPARATOR), name);
    let left = components_of(a.push(SEPARATOR) + name);
    let right = components_of(b.push(SEPARATOR) + other);
    assert(left.last() == name && right.last() == other);
    assert(left.drop_last() =~= components_of(a.push(SEPARATOR)));
    assert(right.drop_last() =~= components_of(b.push(SEPARATOR)));
}

} // verus!
