//! The boundary to the `stash` crate.
//!
//! A [`Stash`] hands out small integer keys and reuses the keys of slots that
//! were freed. This module declares the type to the verifier, names the set
//! of keys that a stash currently holds, and wraps each method that the
//! arena calls. The contracts in this file are believed, not proved: each
//! says what the method's source shows.

use stash::Stash;
use vstd::prelude::*;

verus! {

/// Declares `stash::Stash` as an opaque type.
#[verifier::external_type_specification]
#[verifier::external_body]
#[verifier::reject_recursive_types(V)]
#[verifier::reject_recursive_types(Ix)]
pub struct ExStash<V, Ix>(Stash<V, Ix>);

/// The keys of the slots that are full.
pub uninterp spec fn occupied(slots: Stash<(), usize>) -> Set<usize>;

/// The number of slots, full and empty: the keys below it are those that the
/// stash has handed out since it was new or cleared.
pub uninterp spec fn slot_count(slots: Stash<(), usize>) -> nat;

/// The largest population for which growing a stash is specified.
///
/// A stash keeps its slots in a vector whose entries take at most two machine
/// words each, and a vector doubles its capacity when it grows. With no more
/// than this many slots in use, the doubled capacity is below the
/// `isize::MAX` bytes at which a vector refuses to grow.
pub const MAX_SLOTS: usize = usize::MAX / 64;

/// `Stash::new`: the new stash has no slot.
#[verifier::external_body]
pub(crate) fn slots_new() -> (slots: Stash<(), usize>)
    ensures
        occupied(slots) == Set::<usize>::empty(),
        slot_count(slots) == 0,
{
    Stash::new()
}

/// `Stash::with_capacity`: the new stash has no slot. The capacity is
/// bounded because the call panics when it exceeds what a vector can hold.
#[verifier::external_body]
pub(crate) fn slots_with_capacity(capacity: usize) -> (slots: Stash<(), usize>)
    requires
        capacity <= MAX_SLOTS,
    ensures
        occupied(slots) == Set::<usize>::empty(),
        slot_count(slots) == 0,
{
    Stash::with_capacity(capacity)
}

/// `Stash::reserve`: makes room for `additional` more items beyond those
/// held and leaves the slots as they were. The sum is bounded because the call
/// panics when the room asked for exceeds what a vector can hold.
#[verifier::external_body]
pub(crate) fn slots_reserve(slots: &mut Stash<(), usize>, additional: usize)
    requires
        occupied(*old(slots)).len() + additional <= MAX_SLOTS,
    ensures
        occupied(*final(slots)) == occupied(*old(slots)),
        slot_count(*final(slots)) == slot_count(*old(slots)),
{
    slots.reserve(additional)
}

/// `Stash::clear`: drops every slot; the stash then hands out keys as a new
/// one does.
#[verifier::external_body]
pub(crate) fn slots_clear(slots: &mut Stash<(), usize>)
    ensures
        occupied(*final(slots)) == Set::<usize>::empty(),
        slot_count(*final(slots)) == 0,
{
    slots.clear()
}

/// `Stash::put`: fills an empty slot and returns its key. While an emptied
/// slot waits, one of those is filled; a new slot is appended only when every
/// slot is full. Which of several emptied slots is filled is not stated. The
/// population is bounded because the call panics when the slot vector can
/// grow no further.
#[verifier::external_body]
pub(crate) fn slots_put(slots: &mut Stash<(), usize>) -> (index: usize)
    requires
        occupied(*old(slots)).len() < MAX_SLOTS,
    ensures
        !occupied(*old(slots)).contains(index),
        occupied(*final(slots)) == occupied(*old(slots)).insert(index),
        index <= slot_count(*old(slots)),
        index == slot_count(*old(slots)) <==> forall|i: usize|
            i < slot_count(*old(slots)) ==> occupied(*old(slots)).contains(i),
        slot_count(*final(slots)) == if index == slot_count(*old(slots)) {
            slot_count(*old(slots)) + 1
        } else {
            slot_count(*old(slots))
        },
{
    slots.put(())
}

/// `Stash::take`: empties the slot at `index` and returns `Some` exactly
/// when it was full; every other slot is left alone, and no slot is dropped.
#[verifier::external_body]
pub(crate) fn slots_take(slots: &mut Stash<(), usize>, index: usize) -> (taken: Option<()>)
    ensures
        taken is Some <==> occupied(*old(slots)).contains(index),
        occupied(*final(slots)) == occupied(*old(slots)).remove(index),
        slot_count(*final(slots)) == slot_count(*old(slots)),
{
    slots.take(index)
}

/// `Stash::get`: returns `Some` exactly when the slot at `index` is full.
#[verifier::external_body]
pub(crate) fn slots_get(slots: &Stash<(), usize>, index: usize) -> (found: Option<&()>)
    ensures
        found is Some <==> occupied(*slots).contains(index),
{
    slots.get(index)
}

/// `Stash::len`: the number of full slots.
#[verifier::external_body]
pub(crate) fn slots_len(slots: &Stash<(), usize>) -> (count: usize)
    ensures
        count == occupied(*slots).len(),
{
    slots.len()
}

/// `Stash::iter`: yields the key of each full slot once. The order is left
/// open.
#[verifier::external_body]
pub(crate) fn slots_keys(slots: &Stash<(), usize>) -> (keys: Vec<usize>)
    ensures
        keys@.no_duplicates(),
        keys@.to_set() == occupied(*slots),
{
    slots.iter().map(|(index, _)| index).collect()
}

/// `Stash::clone`: the copy has the same slots, full and empty.
#[verifier::external_body]
pub(crate) fn slots_clone(slots: &Stash<(), usize>) -> (copy: Stash<(), usize>)
    ensures
        occupied(copy) == occupied(*slots),
        slot_count(copy) == slot_count(*slots),
{
    slots.clone()
}

} // verus!
