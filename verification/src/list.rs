//! A growable list that can only be added to.

use std::collections::TryReserveError;
use vstd::prelude::*;

verus! {

/// Whether a list of `len` elements of type `T` can be asked to make room
/// for `additional` more: whether that many elements can be counted, and
/// take no more than `isize::MAX` bytes.
pub open spec fn has_room_for<T>(len: nat, additional: usize) -> bool {
    &&& len + additional <= usize::MAX
    &&& (len + additional) * vstd::layout::size_of::<T>() <= isize::MAX
}

/// `Vec::capacity`: the number of elements the vector can hold without
/// allocating again. Which number that is depends on the allocator; it is
/// never below the vector's length.
#[verifier::external_body]
fn vec_capacity<T>(v: &Vec<T>) -> (r: usize)
    ensures
        r >= v@.len(),
{
    v.capacity()
}

/// `Vec::reserve_exact`: makes room for `additional` more elements and leaves
/// the contents as they are. It panics where the capacity overflows: where
/// the room asked for is more than `isize::MAX` bytes, or for more elements
/// than a `usize` can count, as the capacity is at least the length plus
/// `additional` afterwards. `requires` leaves both out.
#[verifier::external_body]
fn vec_reserve_exact<T>(v: &mut Vec<T>, additional: usize)
    requires
        has_room_for::<T>(old(v)@.len(), additional),
    ensures
        final(v)@ == old(v)@,
{
    v.reserve_exact(additional)
}

/// `Vec::try_reserve_exact`: tries to make room for `additional` more
/// elements and leaves the contents as they are, whether or not it succeeds.
/// Whether it succeeds is the allocator's to say, but for this: it returns
/// an error where the capacity overflows, and a capacity, being a `usize`
/// that is at least the length plus `additional` after a success, overflows
/// where that sum is no `usize`.
#[verifier::external_body]
fn vec_try_reserve_exact<T>(v: &mut Vec<T>, additional: usize) -> (r: Result<(), TryReserveError>)
    ensures
        final(v)@ == old(v)@,
        old(v)@.len() + additional > usize::MAX ==> r.is_err(),
{
    v.try_reserve_exact(additional)
}

/// A `Vec<T>` that only allows pushing, appending and extending: what it
/// holds is never removed or reordered.
pub struct List<T>(pub(crate) Vec<T>);

impl<T> View for List<T> {
    type V = Seq<T>;

    closed spec fn view(&self) -> Seq<T> {
        self.0@
    }
}

impl<T> List<T> {
    /// An empty list.
    pub fn new() -> (r: Self)
        ensures
            r@ == Seq::<T>::empty(),
    {
        List(Vec::new())
    }

    /// The list that holds the elements of `items`, in their order.
    pub fn from_vec(items: Vec<T>) -> (r: Self)
        ensures
            r@ == items@,
    {
        List(items)
    }

    /// The elements, in the order in which they were added.
    pub fn into_inner(self) -> (r: Vec<T>)
        ensures
            r@ == self@,
    {
        self.0
    }

    /// The number of elements.
    pub fn len(&self) -> (r: usize)
        ensures
            r == self@.len(),
    {
        self.0.len()
    }

    /// The number of elements the list can hold without allocating again.
    pub fn capacity(&self) -> (r: usize)
        ensures
            r >= self@.len(),
    {
        vec_capacity(&self.0)
    }

    /// Tries to make room for `additional` more elements.
    pub fn try_reserve(&mut self, additional: usize) -> (r: Result<(), TryReserveError>)
        ensures
            final(self)@ == old(self)@,
    {
        self.0.try_reserve(additional)
    }

    /// Tries to make room for exactly `additional` more elements. The list
    /// holds what it held, whether or not there is room now. There is none
    /// where the list would then hold more elements than can be counted;
    /// otherwise the allocator decides.
    pub fn try_reserve_exact(&mut self, additional: usize) -> (r: Result<(), TryReserveError>)
        ensures
            final(self)@ == old(self)@,
            old(self)@.len() + additional > usize::MAX ==> r.is_err(),
    {
        vec_try_reserve_exact(&mut self.0, additional)
    }

    /// Makes room for `additional` more elements, and maybe for more, so
    /// that reserving often costs little.
    pub fn reserve(&mut self, additional: usize)
        requires
            has_room_for::<T>(old(self)@.len(), additional),
        ensures
            final(self)@ == old(self)@,
    {
        self.0.reserve(additional);
    }

    /// Makes room for exactly `additional` more elements.
    pub fn reserve_exact(&mut self, additional: usize)
        requires
            has_room_for::<T>(old(self)@.len(), additional),
        ensures
            final(self)@ == old(self)@,
    {
        vec_reserve_exact(&mut self.0, additional);
    }

    /// Adds `v` at the end.
    pub fn push(&mut self, v: T)
        ensures
            final(self)@ == old(self)@.push(v),
    {
        self.0.push(v);
    }

    /// Moves every element of `vec` to the end of the list, and leaves `vec` empty.
    pub fn append(&mut self, vec: &mut Vec<T>)
        ensures
            final(self)@ == old(self)@ + old(vec)@,
            final(vec)@ == Seq::<T>::empty(),
    {
        self.0.append(vec);
    }

    /// Moves every element of `items` to the end of the list.
    pub fn extend(&mut self, items: Vec<T>)
        ensures
            final(self)@ == old(self)@ + items@,
    {
        let mut items = items;
        self.0.append(&mut items);
    }

    /// Adds a clone of every element of `slice` at the end.
    pub fn extend_from_slice(&mut self, slice: &[T]) where T: Clone
        ensures
            final(self)@.len() == old(self)@.len() + slice@.len(),
            forall|i: int| 0 <= i < old(self)@.len() ==> #[trigger] final(self)@[i] == old(self)@[i],
            forall|i: int|
                0 <= i < slice@.len() ==> cloned::<T>(
                    slice@[i],
                    #[trigger] final(self)@[old(self)@.len() + i],
                ),
    {
        self.0.extend_from_slice(slice);
    }
}

} // verus!
