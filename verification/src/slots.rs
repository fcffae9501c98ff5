//! The slots of a stable vector (`stable_vec`), whose items keep their index when
//! other slots are filled.
use vstd::prelude::*;

verus! {

/// A stable vector of indices: a sequence of slots, each empty or holding an index.
/// The vector itself is hidden; what its slots hold is [`slot_contents`] and how many
/// slots it has room for is [`slot_capacity`].
#[verifier::external_body]
pub struct Slots {
    inner: stable_vec::StableVec<usize>,
}

/// The slots of a stable vector: one entry per index below its next push index, each
/// empty or holding an item.
pub uninterp spec fn slot_contents(v: Slots) -> Seq<Option<usize>>;

/// The number of slots that a stable vector has room for.
pub uninterp spec fn slot_capacity(v: Slots) -> nat;

/// The largest room that a stable vector of indices can be given without its
/// allocation overflowing (its memory, in bytes, must stay below `isize::MAX`).
pub open spec fn slot_room_limit() -> nat {
    (isize::MAX as nat) / 8
}

/// The room that `StableVecFacade::reserve` leaves for `additional` more slots.
pub open spec fn room_after_reserve(len: nat, cap: nat, additional: nat) -> nat {
    if cap < len + additional {
        if len + additional >= 2 * cap {
            len + additional
        } else {
            2 * cap
        }
    } else {
        cap
    }
}

/// `StableVec::new`: a stable vector with no slot and no room; it allocates nothing.
#[verifier::external_body]
pub(crate) fn slots_new() -> (res: Slots)
    ensures
        slot_contents(res) == Seq::<Option<usize>>::empty(),
        slot_capacity(res) == 0,
{
    Slots { inner: stable_vec::StableVec::new() }
}

/// `StableVecFacade::push`: fills the slot at the next push index, which it returns,
/// after `reserve(1)` made room (at least doubling the room when it grows). It panics
/// when the new room would pass the allocation limit, which `requires` rules out.
#[verifier::external_body]
pub(crate) fn slots_push(v: &mut Slots, elem: usize) -> (res: usize)
    requires
        room_after_reserve(slot_contents(*old(v)).len(), slot_capacity(*old(v)), 1)
            <= slot_room_limit(),
    ensures
        res == slot_contents(*old(v)).len(),
        slot_contents(*final(v)) == slot_contents(*old(v)).push(Some(elem)),
        slot_capacity(*final(v)) == room_after_reserve(
            slot_contents(*old(v)).len(),
            slot_capacity(*old(v)),
            1,
        ),
{
    v.inner.push(elem)
}

/// `StableVecFacade::reserve_for`: makes room for a slot at `index`, through
/// `reserve(index - next_push_index + 1)` when `index` lies beyond the room; the slots
/// stay as they are.
#[verifier::external_body]
pub(crate) fn slots_reserve_for(v: &mut Slots, index: usize)
    requires
        index >= slot_capacity(*old(v)) ==> room_after_reserve(
            slot_contents(*old(v)).len(),
            slot_capacity(*old(v)),
            (index - slot_contents(*old(v)).len() + 1) as nat,
        ) <= slot_room_limit(),
    ensures
        slot_contents(*final(v)) == slot_contents(*old(v)),
        slot_capacity(*final(v)) == if index >= slot_capacity(*old(v)) {
            room_after_reserve(
                slot_contents(*old(v)).len(),
                slot_capacity(*old(v)),
                (index - slot_contents(*old(v)).len() + 1) as nat,
            )
        } else {
            slot_capacity(*old(v))
        },
{
    v.inner.reserve_for(index)
}

/// `StableVecFacade::insert`: puts `elem` into the slot at `index` (below the room,
/// else it panics), returning what the slot held; slots added below a new last slot
/// are empty.
#[verifier::external_body]
pub(crate) fn slots_insert(v: &mut Slots, index: usize, elem: usize) -> (res: Option<usize>)
    requires
        index < slot_capacity(*old(v)),
    ensures
        index < slot_contents(*old(v)).len() ==> res == slot_contents(*old(v))[index as int]
            && slot_contents(*final(v)) == slot_contents(*old(v)).update(
            index as int,
            Some(elem),
        ),
        index >= slot_contents(*old(v)).len() ==> res is None && slot_contents(*final(v))
            == slot_contents(*old(v)) + Seq::new(
            (index - slot_contents(*old(v)).len()) as nat,
            |i: int| None::<usize>,
        ).push(Some(elem)),
        slot_capacity(*final(v)) == slot_capacity(*old(v)),
{
    v.inner.insert(index, elem)
}

/// `StableVecFacade::next_push_index`: the number of slots.
#[verifier::external_body]
pub(crate) fn slots_len(v: &Slots) -> (res: usize)
    ensures
        res == slot_contents(*v).len(),
{
    v.inner.next_push_index()
}

/// `StableVecFacade::get`: what the slot at `index` holds (nothing beyond the slots).
#[verifier::external_body]
pub(crate) fn slots_get(v: &Slots, index: usize) -> (res: Option<usize>)
    ensures
        res == if index < slot_contents(*v).len() {
            slot_contents(*v)[index as int]
        } else {
            None
        },
{
    v.inner.get(index).copied()
}

/// `StableVecFacade::is_compact`: whether every slot is filled.
#[verifier::external_body]
pub(crate) fn slots_is_compact(v: &Slots) -> (res: bool)
    ensures
        res == (forall|i: int| 0 <= i < slot_contents(*v).len() ==> (#[trigger] slot_contents(*v)[i]) is Some),
{
    v.inner.is_compact()
}

} // verus!
