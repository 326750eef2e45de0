//! The list that a common packet keeps its items in: a `SmallVec` with room
//! for four items in place.
//!
//! Nothing in this file is proved: each function makes one call into
//! `smallvec`, and its contract restates what that crate documents.

use crate::common_packet::CommonPacketItem;
use smallvec::SmallVec;
use vstd::prelude::*;

verus! {

/// The list itself. Verus does not look inside.
#[derive(Debug)]
#[verifier::external_body]
pub struct PacketItems {
    inner: SmallVec<[CommonPacketItem; 4]>,
}

/// The items that the list holds, first to last.
pub uninterp spec fn held(items: &PacketItems) -> Seq<CommonPacketItem>;

/// `SmallVec::new`: a list that holds nothing.
#[verifier::external_body]
pub(crate) fn items_new() -> (items: PacketItems)
    ensures
        held(&items) == Seq::<CommonPacketItem>::empty(),
{
    PacketItems { inner: SmallVec::new() }
}

/// `SmallVec::from_vec`: a list of the vector's items, in their order.
#[verifier::external_body]
pub(crate) fn items_from_vec(source: Vec<CommonPacketItem>) -> (items: PacketItems)
    ensures
        held(&items) == source@,
{
    PacketItems { inner: SmallVec::from_vec(source) }
}

/// `SmallVec::len`: the number of items held.
#[verifier::external_body]
pub(crate) fn items_len(items: &PacketItems) -> (n: usize)
    ensures
        n == held(items).len(),
{
    items.inner.len()
}

/// Indexing a `SmallVec` through its `Deref` to a slice: the item at `at`.
/// Indexing past the end panics, so `at` must be below the length.
#[verifier::external_body]
pub(crate) fn items_at(items: &PacketItems, at: usize) -> (item:
    &CommonPacketItem)
    requires
        at < held(items).len(),
    ensures
        *item == held(items)[at as int],
{
    &items.inner[at]
}

/// `SmallVec::into_vec`: the items as a vector, in their order.
#[verifier::external_body]
pub(crate) fn items_into_vec(items: PacketItems) -> (v: Vec<CommonPacketItem>)
    ensures
        v@ == held(&items),
{
    items.inner.into_vec()
}

/// `SmallVec::push`: appends an item.
#[verifier::external_body]
pub(crate) fn items_push(items: &mut PacketItems, item: CommonPacketItem)
    ensures
        held(final(items)) == held(old(items)).push(item),
{
    items.inner.push(item)
}

/// `SmallVec::remove`: takes the item at `at` out and closes the gap. It
/// panics where `at` is not below the length.
#[verifier::external_body]
pub(crate) fn items_remove(items: &mut PacketItems, at: usize) -> (item:
    CommonPacketItem)
    requires
        at < held(old(items)).len(),
    ensures
        item == held(old(items))[at as int],
        held(final(items)) == held(old(items)).remove(at as int),
{
    items.inner.remove(at)
}

} // verus!
