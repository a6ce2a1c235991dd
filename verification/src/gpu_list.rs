//! A list of elements for the GPU that picks its backing buffer once, from
//! the device's limits.

use crate::align::is_multiple_of;
use crate::batched_uniform_buffer::BatchedUniformBuffer;
use crate::binding::{BindGroupLayoutEntry, BufferBinding, BufferBindingType};
use crate::limits::{lemma_batch_size_is_at_most_cap, ConfigError, Limits};
use crate::list_state::ListState;
use crate::storage_buffer::StorageBuffer;
use core::marker::PhantomData;
use vstd::prelude::*;

verus! {

/// An element type that can go into a [`GpuList`].
///
/// Elements are plain values that are copied into a buffer. What the list
/// needs to know of their layout on the device is the size of one element.
pub trait GpuListable: Clone {
    /// The least number of bytes that one element occupies on the device,
    /// which is also the distance between two neighbours in an array.
    const MIN_SIZE: u64;
}

/// Where a pushed element can be found by a shader.
pub struct GpuListIndex<T: GpuListable> {
    /// The index of the element in the array that holds it.
    pub index: u32,
    /// The offset in bytes of that array in the buffer, to be passed as the
    /// dynamic offset when the bind group is set. `None` where the list is
    /// one flat array.
    pub dynamic_offset: Option<u32>,
    /// Ties the index to the element type of its list.
    pub element_type: PhantomData<T>,
}

/// The layout entry for a list of elements of `element_min_size` bytes on a
/// device with these limits.
pub open spec fn spec_binding_layout(
    binding: u32,
    visibility: u32,
    limits: Limits,
    element_min_size: u64,
) -> BindGroupLayoutEntry {
    if limits.spec_supports_storage() {
        BindGroupLayoutEntry {
            binding,
            visibility,
            ty: BufferBindingType::Storage { read_only: true },
            has_dynamic_offset: false,
            min_binding_size: Some(element_min_size),
        }
    } else {
        BindGroupLayoutEntry {
            binding,
            visibility,
            ty: BufferBindingType::Uniform,
            has_dynamic_offset: true,
            min_binding_size: None,
        }
    }
}

/// A list of elements to be handed to the GPU, where shaders read it as an
/// array.
///
/// On a device that has storage buffers the list is one flat array in a
/// storage buffer. On any other it is kept in a uniform buffer, in chunks of
/// the largest array that fits into one binding. Which of the two is decided
/// when the list is made and never changes.
pub enum GpuList<T: GpuListable> {
    /// The list is kept in chunks of a uniform buffer.
    Uniform(BatchedUniformBuffer<T>),
    /// The list is kept in a storage buffer: the buffer, and the elements
    /// pushed since it was last written.
    Storage((StorageBuffer<T>, Vec<T>)),
}

impl<T: GpuListable> View for GpuList<T> {
    type V = ListState<T>;

    open spec fn view(&self) -> ListState<T> {
        match self {
            GpuList::Uniform(buffer) => ListState::Uniform(buffer@),
            GpuList::Storage((buffer, staged)) => ListState::Storage {
                uploaded: buffer.value(),
                staged: staged@,
                written: buffer.written(),
            },
        }
    }
}

impl<T: GpuListable> GpuList<T> {
    /// The list is in a state that every operation accepts.
    pub open spec fn wf(&self) -> bool {
        match self {
            GpuList::Uniform(buffer) => buffer.wf(),
            GpuList::Storage(_) => true,
        }
    }

    /// A well-formed list holds a well-formed state.
    pub proof fn lemma_wf(&self)
        requires
            self.wf(),
        ensures
            self@.wf(),
    {
        match self {
            GpuList::Uniform(buffer) => buffer.lemma_wf(),
            GpuList::Storage(_) => {},
        }
    }

    /// An empty list of elements of type `T` for a device with these limits:
    /// in a storage buffer where the device has any, else in a uniform
    /// buffer, which can fail as [`BatchedUniformBuffer::new`] does.
    pub fn new(limits: &Limits) -> (made: Result<Self, ConfigError>)
        requires
            !limits.spec_supports_storage() ==> limits.min_uniform_buffer_offset_alignment > 0,
        ensures
            limits.spec_supports_storage() ==> match made {
                Ok(list) => list.wf() && list@ == ListState::<T>::empty_storage(),
                Err(_) => false,
            },
            !limits.spec_supports_storage() ==> match made {
                Ok(list) => {
                    &&& limits.spec_batch_size(T::MIN_SIZE as nat) >= 1
                    &&& list.wf()
                    &&& list@ == ListState::<T>::empty_uniform(
                        limits.spec_batch_size(T::MIN_SIZE as nat),
                        T::MIN_SIZE as nat,
                        limits.min_uniform_buffer_offset_alignment as nat,
                    )
                },
                Err(error) => {
                    &&& limits.spec_batch_size(T::MIN_SIZE as nat) == 0
                    &&& error == (ConfigError::ZeroBatchSize {
                        element_min_size: T::MIN_SIZE,
                        binding_size_cap: limits.spec_binding_size_cap(),
                    })
                },
            },
    {
        if limits.supports_storage() {
            Ok(GpuList::Storage((StorageBuffer::new(), Vec::new())))
        } else {
            match BatchedUniformBuffer::new(limits) {
                Ok(buffer) => Ok(GpuList::Uniform(buffer)),
                Err(error) => Err(error),
            }
        }
    }

    /// Drops every element pushed since the list was made or last cleared.
    pub fn clear(&mut self)
        requires
            old(self).wf(),
        ensures
            final(self).wf(),
            final(self)@ == old(self)@.clear(),
            final(self)@.is_uniform() == old(self)@.is_uniform(),
    {
        match self {
            GpuList::Uniform(buffer) => buffer.clear(),
            GpuList::Storage((_, buffer)) => buffer.clear(),
        }
    }

    /// Appends `value` and says where a shader finds it. In a storage buffer
    /// that is its place in the one array; in a uniform buffer it is the
    /// offset of a chunk and the place in that chunk.
    pub fn push(&mut self, value: T) -> (index: GpuListIndex<T>)
        requires
            old(self).wf(),
            old(self)@.accepts_push(),
        ensures
            final(self).wf(),
            final(self)@ == old(self)@.push(value),
            final(self)@.is_uniform() == old(self)@.is_uniform(),
            index.index == old(self)@.next_index(),
            match old(self)@ {
                ListState::Uniform(batch) => {
                    &&& index.dynamic_offset matches Some(offset) && offset == batch.offset()
                    &&& is_multiple_of(batch.offset(), batch.alignment)
                },
                ListState::Storage { .. } => index.dynamic_offset is None,
            },
    {
        match self {
            GpuList::Uniform(buffer) => buffer.push(value),
            GpuList::Storage((_, buffer)) => {
                let index = buffer.len() as u32;
                buffer.push(value);
                GpuListIndex { index, dynamic_offset: None, element_type: PhantomData }
            },
        }
    }

    /// Readies what was pushed for upload. A storage buffer takes the staged
    /// elements over, so that none is staged afterwards; a uniform buffer
    /// commits its chunk in progress.
    pub fn write_buffer(&mut self)
        requires
            old(self).wf(),
            old(self)@.accepts_write(),
        ensures
            final(self).wf(),
            final(self)@ == old(self)@.write_buffer(),
            final(self)@.is_uniform() == old(self)@.is_uniform(),
    {
        match self {
            GpuList::Uniform(buffer) => buffer.write_buffer(),
            GpuList::Storage((buffer, staged)) => {
                let mut taken: Vec<T> = Vec::new();
                std::mem::swap(staged, &mut taken);
                buffer.set(taken);
                buffer.write_buffer();
            },
        }
    }

    /// Whether [`Self::push`] can be called.
    pub fn accepts_push(&self) -> (accepted: bool)
        requires
            self.wf(),
        ensures
            accepted == self@.accepts_push(),
    {
        match self {
            GpuList::Uniform(buffer) => buffer.accepts_push(),
            GpuList::Storage((_, staged)) => staged.len() <= 0xffff_ffff,
        }
    }

    /// Whether [`Self::write_buffer`] can be called.
    pub fn accepts_write(&self) -> (accepted: bool)
        requires
            self.wf(),
        ensures
            accepted == self@.accepts_write(),
    {
        match self {
            GpuList::Uniform(buffer) => buffer.accepts_write(),
            GpuList::Storage(_) => true,
        }
    }

    /// The layout entry that binds a list of `T` at slot `binding`, for the
    /// stages in `visibility`: a read-only storage buffer that holds at least
    /// one element, where the device has storage buffers; else a uniform
    /// buffer with a dynamic offset, whose least size is left open, so that
    /// the graphics API holds it against what is bound.
    pub fn binding_layout(binding: u32, visibility: u32, limits: &Limits) -> (entry:
        BindGroupLayoutEntry)
        ensures
            entry == spec_binding_layout(binding, visibility, *limits, T::MIN_SIZE),
    {
        if limits.supports_storage() {
            BindGroupLayoutEntry {
                binding,
                visibility,
                ty: BufferBindingType::Storage { read_only: true },
                has_dynamic_offset: false,
                min_binding_size: Some(T::MIN_SIZE),
            }
        } else {
            BindGroupLayoutEntry {
                binding,
                visibility,
                ty: BufferBindingType::Uniform,
                has_dynamic_offset: true,
                min_binding_size: None,
            }
        }
    }

    /// The range of the buffer to bind, or `None` while the device has never
    /// been handed an element.
    pub fn binding(&self) -> (binding: Option<BufferBinding>)
        requires
            self.wf(),
        ensures
            binding == self@.binding(),
            binding is Some <==> self@.written(),
    {
        match self {
            GpuList::Uniform(buffer) => buffer.binding(),
            GpuList::Storage((buffer, _)) => buffer.binding(),
        }
    }

    /// The number of elements of type `T` in one chunk of a list on a device
    /// with these limits, or `None` where the device has storage buffers and
    /// the list is not chunked at all.
    pub fn batch_size(limits: &Limits) -> (count: Option<u32>)
        ensures
            limits.spec_supports_storage() ==> count is None,
            !limits.spec_supports_storage() ==> {
                &&& count matches Some(size)
                &&& size == limits.spec_batch_size(T::MIN_SIZE as nat)
            },
    {
        if limits.supports_storage() {
            None
        } else {
            proof {
                lemma_batch_size_is_at_most_cap(*limits, T::MIN_SIZE as nat);
            }
            Some(BatchedUniformBuffer::<T>::batch_size(limits) as u32)
        }
    }
}

} // verus!
