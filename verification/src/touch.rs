//! The last known position of every finger on a touch screen.
//!
//! The device reports no position when a finger leaves the screen, so the last
//! one is kept per touch slot and replayed then. The table has room for five
//! fingers; touch screens rarely report more.

use vstd::prelude::*;

verus! {

/// How many fingers can be tracked at once.
pub const MAX_FINGERS: usize = 5;

/// The slots of the table with their positions, if a finger is down.
pub type TouchTable<P> = [(i32, Option<P>); 5];

/// The first entry of `slot`, or the length of the table where there is none.
pub open spec fn slot_entry<P>(table: Seq<(i32, Option<P>)>, slot: i32) -> int
    decreases table.len(),
{
    if table.len() == 0 {
        0
    } else if table[0].0 == slot {
        0
    } else {
        1 + slot_entry(table.skip(1), slot)
    }
}

/// The first entry without a position, or the length of the table.
pub open spec fn free_entry<P>(table: Seq<(i32, Option<P>)>) -> int
    decreases table.len(),
{
    if table.len() == 0 {
        0
    } else if table[0].1 is None {
        0
    } else {
        1 + free_entry(table.skip(1))
    }
}

/// The last known position of the finger in `slot`.
pub open spec fn last_position<P>(table: Seq<(i32, Option<P>)>, slot: i32) -> Option<P> {
    let i = slot_entry(table, slot);
    if i < table.len() {
        table[i].1
    } else {
        None
    }
}

/// The table after a finger in `slot` was seen at `pos`: its entry is updated,
/// else the first free entry is taken, else the position is dropped.
pub open spec fn with_position<P>(table: Seq<(i32, Option<P>)>, slot: i32, pos: P) -> Seq<
    (i32, Option<P>),
> {
    let i = slot_entry(table, slot);
    let k = free_entry(table);
    if i < table.len() {
        table.update(i, (slot, Some(pos)))
    } else if k < table.len() {
        table.update(k, (slot, Some(pos)))
    } else {
        table
    }
}

/// The table after the finger in `slot` left the screen.
pub open spec fn without_position<P>(table: Seq<(i32, Option<P>)>, slot: i32) -> Seq<
    (i32, Option<P>),
> {
    let i = slot_entry(table, slot);
    if i < table.len() {
        table.update(i, (slot, None))
    } else {
        table
    }
}

/// No slot has a position in any entry but its first.
pub open spec fn table_valid<P>(table: Seq<(i32, Option<P>)>) -> bool {
    forall|i: int, j: int|
        0 <= i < j < table.len() && (#[trigger] table[i]).0 == (#[trigger] table[j]).0
            ==> table[j].1 is None
}

/// What [`slot_entry`] finds is the first entry of the slot.
pub(crate) proof fn lemma_slot_entry<P>(table: Seq<(i32, Option<P>)>, slot: i32)
    ensures
        0 <= slot_entry(table, slot) <= table.len(),
        slot_entry(table, slot) < table.len() ==> table[slot_entry(table, slot)].0 == slot,
        forall|j: int| 0 <= j < slot_entry(table, slot) ==> (#[trigger] table[j]).0 != slot,
    decreases table.len(),
{
    if table.len() > 0 && table[0].0 != slot {
        let rest = table.skip(1);
        lemma_slot_entry(rest, slot);
        assert forall|j: int| 0 <= j < slot_entry(table, slot) implies (#[trigger] table[j]).0
            != slot by {
            if j > 0 {
                assert(rest[j - 1] == table[j]);
            }
        }
    }
}

/// What [`free_entry`] finds is the first entry without a position.
pub(crate) proof fn lemma_free_entry<P>(table: Seq<(i32, Option<P>)>)
    ensures
        0 <= free_entry(table) <= table.len(),
        free_entry(table) < table.len() ==> table[free_entry(table)].1 is None,
        forall|j: int| 0 <= j < free_entry(table) ==> (#[trigger] table[j]).1 is Some,
    decreases table.len(),
{
    if table.len() > 0 && table[0].1 is Some {
        let rest = table.skip(1);
        lemma_free_entry(rest);
        assert forall|j: int| 0 <= j < free_entry(table) implies (#[trigger] table[j]).1 is Some by {
            if j > 0 {
                assert(rest[j - 1] == table[j]);
            }
        }
    }
}

/// An entry of the slot with none before it is what [`slot_entry`] finds.
proof fn lemma_slot_entry_is<P>(table: Seq<(i32, Option<P>)>, slot: i32, i: int)
    requires
        0 <= i <= table.len(),
        i < table.len() ==> table[i].0 == slot,
        forall|j: int| 0 <= j < i ==> (#[trigger] table[j]).0 != slot,
    ensures
        slot_entry(table, slot) == i,
{
    lemma_slot_entry(table, slot);
}

/// An entry without a position with none before it is what [`free_entry`]
/// finds.
proof fn lemma_free_entry_is<P>(table: Seq<(i32, Option<P>)>, i: int)
    requires
        0 <= i <= table.len(),
        i < table.len() ==> table[i].1 is None,
        forall|j: int| 0 <= j < i ==> (#[trigger] table[j]).1 is Some,
    ensures
        free_entry(table) == i,
{
    lemma_free_entry(table);
}

/// A table with no finger down.
pub fn empty_touch_table<P: Copy>() -> (table: TouchTable<P>)
    ensures
        table@ == Seq::new(5, |i: int| (0i32, None::<P>)),
        table_valid(table@),
{
    let table = [(0i32, None::<P>), (0i32, None), (0i32, None), (0i32, None), (0i32, None)];
    assert(table@ =~= Seq::new(5, |i: int| (0i32, None::<P>)));
    table
}

/// Records the position of the finger in `slot`.
pub fn set_touch_pos<P: Copy>(positions: &mut TouchTable<P>, slot: i32, pos: P)
    ensures
        final(positions)@ == with_position(old(positions)@, slot, pos),
{
    let mut i: usize = 0;
    while i < 5
        invariant
            0 <= i <= 5,
            positions@ == old(positions)@,
            forall|j: int| 0 <= j < i ==> (#[trigger] positions@[j]).0 != slot,
        decreases 5 - i,
    {
        if positions[i].0 == slot {
            proof {
                lemma_slot_entry_is(positions@, slot, i as int);
            }
            positions[i] = (slot, Some(pos));
            return ;
        }
        i += 1;
    }
    proof {
        lemma_slot_entry_is(positions@, slot, 5);
    }
    let mut k: usize = 0;
    while k < 5
        invariant
            0 <= k <= 5,
            positions@ == old(positions)@,
            slot_entry(positions@, slot) == 5,
            forall|j: int| 0 <= j < k ==> (#[trigger] positions@[j]).1 is Some,
        decreases 5 - k,
    {
        if positions[k].1.is_none() {
            proof {
                lemma_free_entry_is(positions@, k as int);
            }
            positions[k] = (slot, Some(pos));
            return ;
        }
        k += 1;
    }
    proof {
        lemma_free_entry_is(positions@, 5);
    }
}

/// Takes the last known position of the finger in `slot` out of the table; a
/// finger that was never recorded is at `origin`.
pub fn take_touch_pos<P: Copy>(positions: &mut TouchTable<P>, slot: i32, origin: P) -> (pos: P)
    ensures
        pos == (match last_position(old(positions)@, slot) {
            Some(p) => p,
            None => origin,
        }),
        final(positions)@ == without_position(old(positions)@, slot),
{
    let mut i: usize = 0;
    while i < 5
        invariant
            0 <= i <= 5,
            positions@ == old(positions)@,
            forall|j: int| 0 <= j < i ==> (#[trigger] positions@[j]).0 != slot,
        decreases 5 - i,
    {
        if positions[i].0 == slot {
            proof {
                lemma_slot_entry_is(positions@, slot, i as int);
            }
            let known: Option<P> = positions[i].1;
            positions[i] = (slot, None);
            return match known {
                Some(p) => p,
                None => origin,
            };
        }
        i += 1;
    }
    proof {
        lemma_slot_entry_is(positions@, slot, 5);
    }
    origin
}

/// Recording a position keeps the table valid and the positions of all other
/// fingers. The recorded position is the finger's last one from then on, unless
/// the finger is new and five others are down.
pub proof fn recorded_positions_are_replayed<P>(table: Seq<(i32, Option<P>)>, slot: i32, pos: P)
    requires
        table_valid(table),
    ensures
        table_valid(with_position(table, slot, pos)),
        with_position(table, slot, pos).len() == table.len(),
        forall|other: i32|
            other != slot ==> last_position(with_position(table, slot, pos), other)
                == #[trigger] last_position(table, other),
        last_position(table, slot) is Some || free_entry(table) < table.len() ==> last_position(
            with_position(table, slot, pos),
            slot,
        ) == Some(pos),
        last_position(table, slot) is None && free_entry(table) == table.len() ==> with_position(
            table,
            slot,
            pos,
        ) == table,
{
    lemma_slot_entry(table, slot);
    lemma_free_entry(table);
    let after = with_position(table, slot, pos);
    let i = slot_entry(table, slot);
    let t = if i < table.len() {
        i
    } else {
        free_entry(table)
    };
    lemma_slot_entry(after, slot);
    if t < table.len() {
        lemma_slot_entry_is(after, slot, t);
    }
    assert forall|other: i32| other != slot implies last_position(after, other)
        == #[trigger] last_position(table, other) by {
        lemma_slot_entry(table, other);
        lemma_slot_entry(after, other);
        let a = slot_entry(table, other);
        let b = slot_entry(after, other);
        assert(a < table.len() && a != t ==> after[a] == table[a]);
        assert(b < table.len() ==> after[b] == table[b]);
    }
}

/// Taking a position out keeps the table valid and the positions of all other
/// fingers, and leaves none for the finger itself.
pub proof fn taken_positions_are_gone<P>(table: Seq<(i32, Option<P>)>, slot: i32)
    requires
        table_valid(table),
    ensures
        table_valid(without_position(table, slot)),
        without_position(table, slot).len() == table.len(),
        last_position(without_position(table, slot), slot) is None,
        forall|other: i32|
            other != slot ==> last_position(without_position(table, slot), other)
                == #[trigger] last_position(table, other),
{
    lemma_slot_entry(table, slot);
    let after = without_position(table, slot);
    let t = slot_entry(table, slot);
    lemma_slot_entry(after, slot);
    assert forall|other: i32| other != slot implies last_position(after, other)
        == #[trigger] last_position(table, other) by {
        lemma_slot_entry(table, other);
        lemma_slot_entry(after, other);
        let a = slot_entry(table, other);
        let b = slot_entry(after, other);
        assert(a < table.len() && a != t ==> after[a] == table[a]);
        assert(b < table.len() ==> after[b] == table[b]);
    }
}

/// The last known position of a finger stands in the table under its slot: what is
/// known is some entry's, and in a valid table every entry with a position is
/// known.
pub proof fn known_positions_stand_in_the_table<P>(
    table: Seq<(i32, Option<P>)>,
    slot: i32,
    pos: P,
)
    requires
        table_valid(table),
    ensures
        last_position(table, slot) == Some(pos) <==> exists|i: int|
            0 <= i < table.len() && #[trigger] table[i] == (slot, Some(pos)),
{
    lemma_slot_entry(table, slot);
    let first = slot_entry(table, slot);
    if last_position(table, slot) == Some(pos) {
        assert(table[first] == (slot, Some(pos)));
    }
    if exists|i: int| 0 <= i < table.len() && #[trigger] table[i] == (slot, Some(pos)) {
        let i = choose|i: int| 0 <= i < table.len() && #[trigger] table[i] == (slot, Some(pos));
        assert(first <= i);
        if first < i {
            assert(table[first].0 == table[i].0);
        }
    }
}

} // verus!
