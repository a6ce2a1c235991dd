//! A uniform buffer that holds a list as chunks of equal capacity, each at a
//! dynamic offset of its own.

use crate::align::{is_multiple_of, round_up};
use crate::batch_state::{lemma_offset_is_aligned, lemma_stride_bounds, BatchState};
use crate::binding::BufferBinding;
use crate::capped_array::MaxCapacityArray;
use crate::gpu_list::{GpuListIndex, GpuListable};
use crate::limits::{lemma_batch_size_is_largest_fit, ConfigError, Limits};
use core::marker::PhantomData;
use vstd::prelude::*;

verus! {

/// Every N elements of a list are grouped into one chunk of a uniform buffer,
/// where N is the largest number of elements that fit into one binding. An
/// index into the list is the offset of a chunk together with an index into
/// that chunk, so that a draw call rebinds only where the chunk changes.
pub struct BatchedUniformBuffer<T: GpuListable> {
    uniforms: Vec<MaxCapacityArray<T>>,
    temp: MaxCapacityArray<T>,
    current_offset: u32,
    dynamic_offset_alignment: u32,
    written: bool,
}

impl<T: GpuListable> View for BatchedUniformBuffer<T> {
    type V = BatchState<T>;

    closed spec fn view(&self) -> BatchState<T> {
        BatchState {
            chunks: Seq::new(self.uniforms@.len(), |k: int| self.uniforms@[k]@),
            pending: self.temp@,
            capacity: self.temp.spec_capacity(),
            element_size: T::MIN_SIZE as nat,
            alignment: self.dynamic_offset_alignment as nat,
            written: self.written,
        }
    }
}

impl<T: GpuListable> BatchedUniformBuffer<T> {
    /// The buffer's own bookkeeping agrees with what it holds.
    spec fn inv(&self) -> bool {
        &&& self@.inv()
        &&& self.current_offset as nat == self@.offset()
        &&& forall|k: int|
            0 <= k < self.uniforms@.len() ==> (#[trigger] self.uniforms@[k]).spec_capacity()
                == self.temp.spec_capacity()
    }

    /// The buffer is in a state that every operation accepts.
    pub closed spec fn wf(&self) -> bool {
        &&& self.inv()
        &&& self@.wf()
    }

    /// A well-formed buffer holds a well-formed state, and the offset of its
    /// chunk in progress fits in 32 bits.
    pub proof fn lemma_wf(&self)
        requires
            self.wf(),
        ensures
            self@.wf(),
            self@.offset() <= u32::MAX,
    {
    }

    /// The number of elements of type `T` that make one chunk on a device
    /// with these limits: as many as fit into one binding, and zero where
    /// not even one does.
    pub fn batch_size(limits: &Limits) -> (count: usize)
        ensures
            count == limits.spec_batch_size(T::MIN_SIZE as nat),
    {
        limits.batch_size_for(T::MIN_SIZE)
    }

    /// An empty buffer for elements of type `T` on a device with these
    /// limits, or the reason why none can be had: where not even one element
    /// fits into a binding, the device cannot hold such a list.
    pub fn new(limits: &Limits) -> (made: Result<Self, ConfigError>)
        requires
            limits.min_uniform_buffer_offset_alignment > 0,
        ensures
            match made {
                Ok(buffer) => {
                    &&& limits.spec_batch_size(T::MIN_SIZE as nat) >= 1
                    &&& buffer.wf()
                    &&& buffer@ == BatchState::<T>::empty(
                        limits.spec_batch_size(T::MIN_SIZE as nat),
                        T::MIN_SIZE as nat,
                        limits.min_uniform_buffer_offset_alignment as nat,
                    )
                },
                Err(error) => {
                    &&& limits.spec_batch_size(T::MIN_SIZE as nat) == 0
                    &&& error == (ConfigError::ZeroBatchSize {
                        element_min_size: T::MIN_SIZE,
                        binding_size_cap: limits.spec_binding_size_cap(),
                    })
                },
            },
    {
        let capacity = Self::batch_size(limits);
        if capacity == 0 {
            return Err(
                ConfigError::ZeroBatchSize {
                    element_min_size: T::MIN_SIZE,
                    binding_size_cap: limits.binding_size_cap(),
                },
            );
        }
        let buffer = BatchedUniformBuffer {
            uniforms: Vec::new(),
            temp: MaxCapacityArray::new(capacity),
            current_offset: 0,
            dynamic_offset_alignment: limits.min_uniform_buffer_offset_alignment,
            written: false,
        };
        proof {
            lemma_batch_size_is_largest_fit(*limits, T::MIN_SIZE as nat);
        }
        Ok(buffer)
    }

    /// The footprint in bytes of one chunk on the device. It depends on the
    /// capacity of a chunk alone, not on how many elements one holds.
    pub fn size(&self) -> (size: u64)
        requires
            self.wf(),
        ensures
            size == self@.chunk_size(),
            size >= 1,
    {
        proof {
            lemma_stride_bounds(self@);
        }
        self.temp.size(T::MIN_SIZE)
    }

    /// The distance in bytes between the offsets of two neighbouring chunks:
    /// the size of a chunk, rounded up to the alignment.
    pub fn chunk_stride(&self) -> (stride: u32)
        requires
            self.wf(),
        ensures
            stride == self@.stride(),
            stride >= 1,
            is_multiple_of(stride as nat, self@.alignment),
    {
        proof {
            lemma_stride_bounds(self@);
        }
        self.stride()
    }

    /// The stride, also while the chunk in progress is full.
    fn stride(&self) -> (stride: u32)
        requires
            self.inv(),
        ensures
            stride == self@.stride(),
    {
        proof {
            lemma_stride_bounds(self@);
        }
        let size = self.temp.size(T::MIN_SIZE);
        round_up(size, self.dynamic_offset_alignment as u64) as u32
    }

    /// Drops every element and starts again at offset zero. The capacity of a
    /// chunk stays, and so does what the device was handed before.
    pub fn clear(&mut self)
        requires
            old(self).wf(),
        ensures
            final(self).wf(),
            final(self)@ == old(self)@.clear(),
    {
        self.uniforms.clear();
        self.current_offset = 0;
        self.temp.clear();
        proof {
            assert(self@ =~= old(self)@.clear());
        }
    }

    /// Appends `component` to the chunk in progress and says where a shader
    /// finds it: at which index, in the chunk at which offset. A chunk that
    /// the push has filled is committed at once, so that the next push starts
    /// a new chunk at the next offset.
    pub fn push(&mut self, component: T) -> (index: GpuListIndex<T>)
        requires
            old(self).wf(),
            old(self)@.accepts_push(),
        ensures
            final(self).wf(),
            final(self)@ == old(self)@.push(component),
            index.index == old(self)@.pending.len(),
            index.dynamic_offset matches Some(offset) && offset == old(self)@.offset(),
            is_multiple_of(old(self)@.offset(), old(self)@.alignment),
    {
        proof {
            lemma_stride_bounds(self@);
            lemma_offset_is_aligned(self@);
        }
        let result = GpuListIndex {
            index: self.temp.len() as u32,
            dynamic_offset: Some(self.current_offset),
            element_type: PhantomData,
        };
        self.temp.push(component);
        if self.temp.len() == self.temp.capacity() {
            self.commit();
        }
        result
    }

    /// Commits the chunk in progress, full or not, at the current offset, and
    /// moves the offset on by one stride.
    fn commit(&mut self)
        requires
            old(self).inv(),
            old(self)@.has_room(),
        ensures
            final(self).wf(),
            final(self)@ == old(self)@.flush(),
    {
        let stride = self.stride();
        let chunk = self.temp.take();
        self.uniforms.push(chunk);
        self.current_offset = self.current_offset + stride;
        proof {
            let n = old(self)@.chunks.len();
            let s = old(self)@.stride();
            assert((n + 1) * s == n * s + s) by (nonlinear_arith);
            assert(self@ =~= old(self)@.flush());
        }
    }

    /// Commits the chunk in progress as it is, even when it is empty: the
    /// committed chunk takes up a whole stride either way, and the next
    /// element goes into a new chunk at the next offset.
    pub fn flush(&mut self)
        requires
            old(self).wf(),
            old(self)@.has_room(),
        ensures
            final(self).wf(),
            final(self)@ == old(self)@.flush(),
    {
        self.commit();
    }

    /// Readies the list for upload: commits the chunk in progress unless it
    /// is empty, and records that the device is handed every chunk. The
    /// chunks to upload are then [`Self::chunks`], each at its offset.
    pub fn write_buffer(&mut self)
        requires
            old(self).wf(),
            old(self)@.accepts_write(),
        ensures
            final(self).wf(),
            final(self)@ == old(self)@.write_buffer(),
    {
        if !self.temp.is_empty() {
            self.commit();
        }
        if self.uniforms.len() > 0 {
            self.written = true;
        }
    }

    /// The range of the buffer to bind, or `None` while the device has never
    /// been handed a chunk.
    pub fn binding(&self) -> (binding: Option<BufferBinding>)
        requires
            self.wf(),
        ensures
            binding == self@.binding(),
            binding is Some <==> self@.written,
            binding matches Some(range) ==> {
                &&& range.offset == 0
                &&& range.size matches Some(size)
                &&& size == self@.chunk_size()
            },
    {
        if self.written {
            Some(BufferBinding { offset: 0, size: Some(self.size()) })
        } else {
            None
        }
    }

    /// The committed chunks, in the order of their offsets: chunk `k` lies
    /// `k` strides into the buffer.
    pub fn chunks(&self) -> (chunks: &Vec<MaxCapacityArray<T>>)
        requires
            self.wf(),
        ensures
            chunks@.len() == self@.chunks.len(),
            forall|k: int|
                0 <= k < chunks@.len() ==> {
                    &&& (#[trigger] chunks@[k])@ == self@.chunks[k]
                    &&& chunks@[k].spec_capacity() == self@.capacity
                },
    {
        &self.uniforms
    }

    /// The chunk in progress.
    pub fn pending(&self) -> (pending: &MaxCapacityArray<T>)
        requires
            self.wf(),
        ensures
            pending@ == self@.pending,
            pending.spec_capacity() == self@.capacity,
    {
        &self.temp
    }

    /// The offset in bytes of the chunk in progress.
    pub fn current_offset(&self) -> (offset: u32)
        requires
            self.wf(),
        ensures
            offset == self@.offset(),
    {
        self.current_offset
    }

    /// Whether one more chunk can be committed.
    pub fn has_room(&self) -> (room: bool)
        requires
            self.wf(),
        ensures
            room == self@.has_room(),
    {
        let stride = self.chunk_stride();
        stride <= u32::MAX - self.current_offset
    }

    /// Whether [`Self::push`] can be called.
    pub fn accepts_push(&self) -> (accepted: bool)
        requires
            self.wf(),
        ensures
            accepted == self@.accepts_push(),
    {
        proof {
            lemma_stride_bounds(self@);
        }
        self.temp.len() + 1 != self.temp.capacity() || self.has_room()
    }

    /// Whether [`Self::write_buffer`] can be called.
    pub fn accepts_write(&self) -> (accepted: bool)
        requires
            self.wf(),
        ensures
            accepted == self@.accepts_write(),
    {
        self.temp.is_empty() || self.has_room()
    }
}

} // verus!
