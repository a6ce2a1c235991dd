//! The device limits that decide how a list is laid out, and the number of
//! elements that fit into one uniform-buffer binding.

use vstd::prelude::*;

verus! {

/// Upper bound, in bytes, on the binding size that chunks are sized for.
///
/// Some devices report a maximum uniform-buffer binding size far beyond what
/// is practical; sizing every chunk for it would make each chunk, and with it
/// the smallest possible buffer, needlessly large.
pub const MAX_REASONABLE_UNIFORM_BUFFER_BINDING_SIZE: u32 = 1_048_576;

/// The limits of a device that a list depends on.
#[derive(Clone, Copy, Debug, PartialEq, Eq, Structural)]
pub struct Limits {
    /// Largest size in bytes of one binding of a uniform buffer.
    pub max_uniform_buffer_binding_size: u32,
    /// Alignment in bytes that a dynamic offset into a uniform buffer must have.
    pub min_uniform_buffer_offset_alignment: u32,
    /// Number of storage buffers that one shader stage can see.
    pub max_storage_buffers_per_shader_stage: u32,
}

/// Why a batched uniform buffer cannot be built for an element type on a device.
#[derive(Clone, Copy, Debug, PartialEq, Eq, Structural)]
pub enum ConfigError {
    /// Not a single element fits into one binding: the batch size is zero.
    ZeroBatchSize {
        /// The size in bytes that the element type reported.
        element_min_size: u64,
        /// The number of bytes available to one chunk on this device.
        binding_size_cap: u32,
    },
}

impl Limits {
    /// The bytes available to one chunk: the device's maximum binding size,
    /// capped at [`MAX_REASONABLE_UNIFORM_BUFFER_BINDING_SIZE`].
    pub open spec fn spec_binding_size_cap(self) -> u32 {
        if self.max_uniform_buffer_binding_size < MAX_REASONABLE_UNIFORM_BUFFER_BINDING_SIZE {
            self.max_uniform_buffer_binding_size
        } else {
            MAX_REASONABLE_UNIFORM_BUFFER_BINDING_SIZE
        }
    }

    /// The number of elements of `element_min_size` bytes that fit into one
    /// chunk: the binding size cap divided by the element size, rounded down.
    /// An element without a size fits nowhere: its batch size is zero.
    pub open spec fn spec_batch_size(self, element_min_size: nat) -> nat {
        if element_min_size == 0 {
            0
        } else {
            self.spec_binding_size_cap() as nat / element_min_size
        }
    }

    /// Whether the device offers storage buffers to a shader stage, in which
    /// case a list is kept in one flat storage buffer.
    pub open spec fn spec_supports_storage(self) -> bool {
        self.max_storage_buffers_per_shader_stage > 0
    }

    /// The bytes available to one chunk on this device.
    pub fn binding_size_cap(&self) -> (cap: u32)
        ensures
            cap == self.spec_binding_size_cap(),
            cap <= MAX_REASONABLE_UNIFORM_BUFFER_BINDING_SIZE,
    {
        if self.max_uniform_buffer_binding_size < MAX_REASONABLE_UNIFORM_BUFFER_BINDING_SIZE {
            self.max_uniform_buffer_binding_size
        } else {
            MAX_REASONABLE_UNIFORM_BUFFER_BINDING_SIZE
        }
    }

    /// The number of elements of `element_min_size` bytes that fit into one chunk.
    pub fn batch_size_for(&self, element_min_size: u64) -> (count: usize)
        ensures
            count == self.spec_batch_size(element_min_size as nat),
    {
        if element_min_size == 0 {
            0
        } else {
            let cap: u64 = self.binding_size_cap() as u64;
            let count: u64 = cap / element_min_size;
            count as usize
        }
    }

    /// Whether a list on this device is kept in a storage buffer.
    pub fn supports_storage(&self) -> (storage: bool)
        ensures
            storage == self.spec_supports_storage(),
    {
        self.max_storage_buffers_per_shader_stage > 0
    }
}

/// A batch of `spec_batch_size` elements never outgrows the binding size cap,
/// and one more element would.
pub proof fn lemma_batch_size_is_largest_fit(limits: Limits, element_min_size: nat)
    requires
        element_min_size > 0,
    ensures
        limits.spec_batch_size(element_min_size) * element_min_size
            <= limits.spec_binding_size_cap(),
        (limits.spec_batch_size(element_min_size) + 1) * element_min_size
            > limits.spec_binding_size_cap(),
        limits.spec_batch_size(element_min_size) >= 1 <==> element_min_size
            <= limits.spec_binding_size_cap(),
{
    let cap = limits.spec_binding_size_cap() as nat;
    let n = cap / element_min_size;
    assert(n * element_min_size <= cap && (n + 1) * element_min_size > cap && (n >= 1
        <==> element_min_size <= cap)) by (nonlinear_arith)
        requires
            element_min_size > 0,
            n == cap / element_min_size,
    ;
}

/// A batch never holds more elements than the binding size cap has bytes,
/// whatever the size of an element.
pub proof fn lemma_batch_size_is_at_most_cap(limits: Limits, element_min_size: nat)
    ensures
        limits.spec_batch_size(element_min_size) <= limits.spec_binding_size_cap(),
        limits.spec_batch_size(element_min_size) <= MAX_REASONABLE_UNIFORM_BUFFER_BINDING_SIZE,
{
    if element_min_size > 0 {
        let cap = limits.spec_binding_size_cap() as nat;
        assert(cap / element_min_size <= cap) by (nonlinear_arith)
            requires
                element_min_size > 0,
        ;
    }
}

} // verus!
