//! Children lists, held in a `smallvec::SmallVec` with inline room for eight.
use smallvec::SmallVec;
use vstd::prelude::*;

verus! {

/// An entity handle: an opaque identifier, compared by value.
pub type Entity = u64;

/// The largest length a children list may reach. Growing a `SmallVec` of
/// eight-byte items past `isize::MAX` bytes panics; this bound stays far below.
pub const MAX_CHILDREN: usize = usize::MAX / 32;

/// A children list: a `SmallVec` with inline room for eight handles, opaque
/// to the verifier and read through `list_items`.
#[verifier::external_body]
pub struct ChildList {
    items: SmallVec<[Entity; 8]>,
}

/// The entities a children list holds, in order.
pub uninterp spec fn list_items(v: ChildList) -> Seq<Entity>;

/// Whether `e` occurs in `xs`.
pub fn slice_contains(xs: &[Entity], e: Entity) -> (r: bool)
    ensures
        r == xs@.contains(e),
{
    let mut i: usize = 0;
    while i < xs.len()
        invariant
            0 <= i <= xs@.len(),
            forall|j: int| 0 <= j < i ==> xs@[j] != e,
        decreases xs@.len() - i,
    {
        if xs[i] == e {
            return true;
        }
        i = i + 1;
    }
    false
}

/// Relies on `SmallVec::from_slice`: a list holding a copy of the slice.
#[verifier::external_body]
pub(crate) fn list_from_slice(s: &[Entity]) -> (r: ChildList)
    ensures
        list_items(r) == s@,
{
    ChildList { items: SmallVec::from_slice(s) }
}

/// Relies on `SmallVec::len`: the number of items.
#[verifier::external_body]
pub(crate) fn list_len(v: &ChildList) -> (r: usize)
    ensures
        r == list_items(*v).len(),
{
    v.items.len()
}

/// Relies on `SmallVec::as_slice`: the items, in order.
#[verifier::external_body]
pub(crate) fn list_as_slice(v: &ChildList) -> (r: &[Entity])
    ensures
        r@ == list_items(*v),
{
    v.items.as_slice()
}

/// Relies on `SmallVec::push`: appends one item at the end.
#[verifier::external_body]
pub(crate) fn list_push(v: &mut ChildList, e: Entity)
    requires
        list_items(*old(v)).len() < MAX_CHILDREN,
    ensures
        list_items(*final(v)) == list_items(*old(v)).push(e),
{
    v.items.push(e)
}

/// Relies on `SmallVec::insert_from_slice`: the slice is spliced in at `index`.
#[verifier::external_body]
pub(crate) fn list_insert_from_slice(v: &mut ChildList, index: usize, s: &[Entity])
    requires
        index <= list_items(*old(v)).len(),
        list_items(*old(v)).len() + s@.len() <= MAX_CHILDREN,
    ensures
        list_items(*final(v)) == list_items(*old(v)).take(index as int) + s@ + list_items(
            *old(v),
        ).skip(index as int),
{
    v.items.insert_from_slice(index, s)
}

/// Relies on `SmallVec::retain`: keeps, in order, the items for which the
/// predicate holds; here the predicate is "not in `xs`".
#[verifier::external_body]
pub(crate) fn list_retain_absent(v: &mut ChildList, xs: &[Entity])
    ensures
        list_items(*final(v)) == list_items(*old(v)).filter(|e: Entity| !xs@.contains(e)),
{
    v.items.retain(|e| !slice_contains(xs, *e))
}

} // verus!
