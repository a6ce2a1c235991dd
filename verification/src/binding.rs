//! Descriptions of how a list's buffer is bound to a shader stage.
//!
//! These are plain values: the caller that owns the device attaches the
//! buffer handle and hands them on to the graphics API.

use vstd::prelude::*;

verus! {

/// The kind of buffer that a binding slot expects.
#[derive(Clone, Copy, Debug, PartialEq, Eq, Structural)]
pub enum BufferBindingType {
    /// A uniform buffer.
    Uniform,
    /// A storage buffer, writable by the shader unless `read_only`.
    Storage { read_only: bool },
}

/// One entry of a bind group layout that describes a buffer binding.
#[derive(Clone, Copy, Debug, PartialEq, Eq, Structural)]
pub struct BindGroupLayoutEntry {
    /// The binding slot, as the shader numbers it.
    pub binding: u32,
    /// The shader stages that see the binding, as a bit set.
    pub visibility: u32,
    /// The kind of buffer bound.
    pub ty: BufferBindingType,
    /// Whether a dynamic offset is passed whenever the bind group is set.
    pub has_dynamic_offset: bool,
    /// The least size in bytes of a buffer bound here, if the layout fixes one.
    pub min_binding_size: Option<u64>,
}

/// The range of a buffer that is bound: `size` bytes from `offset`, or all
/// that follows `offset` where `size` is `None`.
#[derive(Clone, Copy, Debug, PartialEq, Eq, Structural)]
pub struct BufferBinding {
    /// First byte of the range.
    pub offset: u64,
    /// Length of the range in bytes, or `None` for the rest of the buffer.
    pub size: Option<u64>,
}

} // verus!
