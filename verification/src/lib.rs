//! A list of elements bound for GPU memory, packed either into one flat
//! storage buffer or into fixed-capacity chunks of a dynamic-offset uniform
//! buffer, with the offset arithmetic proved against the device's limits.
//!
//! A list is made for a device, from its [`Limits`]. Each frame it is
//! cleared, filled by pushes, each of which says where a shader will find
//! the element, and written. The caller that owns the device then uploads
//! what the list holds and binds the range that the list names.

pub mod align;
pub mod batch_state;
pub mod batched_uniform_buffer;
pub mod binding;
pub mod capped_array;
pub mod gpu_list;
pub mod limits;
pub mod list_state;
pub mod storage_buffer;

pub use crate::batched_uniform_buffer::BatchedUniformBuffer;
pub use crate::gpu_list::{GpuList, GpuListIndex, GpuListable};
pub use crate::limits::{ConfigError, Limits};
