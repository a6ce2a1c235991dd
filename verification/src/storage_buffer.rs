//! The host's record of a storage buffer that holds one flat array.

use crate::binding::BufferBinding;
use vstd::prelude::*;

verus! {

/// The value that a storage buffer is to hold, and whether the device has
/// been handed any of it yet.
pub struct StorageBuffer<T> {
    value: Vec<T>,
    written: bool,
}

impl<T> StorageBuffer<T> {
    /// The elements that the buffer was last set to.
    pub closed spec fn value(&self) -> Seq<T> {
        self.value@
    }

    /// Whether the device has been handed at least one element so far.
    pub closed spec fn written(&self) -> bool {
        self.written
    }

    /// The range to bind: the whole buffer, once the device has been handed
    /// anything.
    pub open spec fn spec_binding(&self) -> Option<BufferBinding> {
        if self.written() {
            Some(BufferBinding { offset: 0, size: None })
        } else {
            None
        }
    }

    /// A buffer that holds no element and was never written.
    pub fn new() -> (buffer: Self)
        ensures
            buffer.value() == Seq::<T>::empty(),
            !buffer.written(),
    {
        StorageBuffer { value: Vec::new(), written: false }
    }

    /// Replaces the elements that the buffer is to hold.
    pub fn set(&mut self, value: Vec<T>)
        ensures
            final(self).value() == value@,
            final(self).written() == old(self).written(),
    {
        self.value = value;
    }

    /// The elements that the buffer was last set to.
    pub fn get(&self) -> (value: &Vec<T>)
        ensures
            value@ == self.value(),
    {
        &self.value
    }

    /// Records that the device is handed the elements. With no element there
    /// is nothing to hand over, and a buffer never written stays so.
    pub fn write_buffer(&mut self)
        ensures
            final(self).value() == old(self).value(),
            final(self).written() == (old(self).written() || old(self).value().len() > 0),
    {
        if self.value.len() > 0 {
            self.written = true;
        }
    }

    /// The range of the buffer to bind, or `None` while the device has never
    /// been handed an element.
    pub fn binding(&self) -> (binding: Option<BufferBinding>)
        ensures
            binding == self.spec_binding(),
    {
        if self.written {
            Some(BufferBinding { offset: 0, size: None })
        } else {
            None
        }
    }
}

} // verus!
