//! A sequence of elements with a declared capacity that it never outgrows.

use vstd::prelude::*;

verus! {

/// The size in bytes that an array of `capacity` elements of `element_size`
/// bytes occupies on the device. The footprint is that of the capacity, not
/// of the elements present, and never that of fewer than one element.
pub open spec fn spec_array_size(capacity: nat, element_size: nat) -> nat {
    if capacity == 0 {
        element_size
    } else {
        capacity * element_size
    }
}

/// Elements in the order they were pushed, capped at a fixed capacity.
///
/// On the device the array always has the footprint of its capacity; only
/// the elements present are meaningful there.
pub struct MaxCapacityArray<T> {
    items: Vec<T>,
    capacity: usize,
}

impl<T> View for MaxCapacityArray<T> {
    type V = Seq<T>;

    /// The elements present, oldest first.
    closed spec fn view(&self) -> Seq<T> {
        self.items@
    }
}

impl<T> MaxCapacityArray<T> {
    /// The declared capacity.
    pub closed spec fn spec_capacity(&self) -> nat {
        self.capacity as nat
    }

    /// The array holds no more elements than its capacity.
    pub open spec fn wf(&self) -> bool {
        self@.len() <= self.spec_capacity()
    }

    /// An empty array of the given capacity.
    pub fn new(capacity: usize) -> (array: Self)
        ensures
            array@ == Seq::<T>::empty(),
            array.spec_capacity() == capacity,
            array.wf(),
    {
        MaxCapacityArray { items: Vec::with_capacity(capacity), capacity }
    }

    /// The declared capacity.
    pub fn capacity(&self) -> (capacity: usize)
        ensures
            capacity == self.spec_capacity(),
    {
        self.capacity
    }

    /// The number of elements present.
    pub fn len(&self) -> (len: usize)
        ensures
            len == self@.len(),
    {
        self.items.len()
    }

    /// Whether no element is present.
    pub fn is_empty(&self) -> (empty: bool)
        ensures
            empty == (self@.len() == 0),
    {
        self.items.len() == 0
    }

    /// The elements present, oldest first.
    pub fn items(&self) -> (items: &Vec<T>)
        ensures
            items@ == self@,
    {
        &self.items
    }

    /// The footprint in bytes of the array on the device, for elements of
    /// `element_size` bytes each.
    pub fn size(&self, element_size: u64) -> (size: u64)
        requires
            spec_array_size(self.spec_capacity(), element_size as nat) <= u64::MAX,
        ensures
            size == spec_array_size(self.spec_capacity(), element_size as nat),
    {
        if self.capacity == 0 {
            element_size
        } else {
            (self.capacity as u64) * element_size
        }
    }

    /// Appends `value`. The array must not be full.
    pub fn push(&mut self, value: T)
        requires
            old(self)@.len() < old(self).spec_capacity(),
        ensures
            final(self)@ == old(self)@.push(value),
            final(self).spec_capacity() == old(self).spec_capacity(),
            final(self).wf(),
    {
        self.items.push(value);
    }

    /// Removes every element; the capacity stays.
    pub fn clear(&mut self)
        ensures
            final(self)@ == Seq::<T>::empty(),
            final(self).spec_capacity() == old(self).spec_capacity(),
            final(self).wf(),
    {
        self.items.clear();
    }

    /// Moves the elements out into an array of their own and leaves this one
    /// empty, with the same capacity.
    pub fn take(&mut self) -> (taken: Self)
        ensures
            taken@ == old(self)@,
            taken.spec_capacity() == old(self).spec_capacity(),
            final(self)@ == Seq::<T>::empty(),
            final(self).spec_capacity() == old(self).spec_capacity(),
            final(self).wf(),
    {
        let mut items: Vec<T> = Vec::with_capacity(self.capacity);
        std::mem::swap(&mut self.items, &mut items);
        MaxCapacityArray { items, capacity: self.capacity }
    }
}

} // verus!
