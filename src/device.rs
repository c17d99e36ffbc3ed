use vstd::prelude::*;
use crate::error::Error;
use crate::handle::DevicePtr;
use crate::layout::Layout;

verus! {

/// Device allocation for implementations that keep state of their own, such
/// as a cursor, and so need exclusive access.
pub trait DeviceAllocImpl {
    fn alloc_untagged(&mut self, layout: Layout) -> Result<DevicePtr, Error>;

    fn alloc_with_tag(&mut self, layout: Layout, tag: u16) -> Result<DevicePtr, Error>;

    /// A region of `height_in_rows` rows with its row stride.
    fn alloc_pitch(
        &mut self,
        width_in_bytes: usize,
        height_in_rows: usize,
        element_byte_size: usize,
    ) -> Result<(DevicePtr, usize), Error>;

    fn alloc_pitch_with_tag(
        &mut self,
        width_in_bytes: usize,
        height_in_rows: usize,
        element_byte_size: usize,
        tag: u16,
    ) -> Result<(DevicePtr, usize), Error>;

    fn dealloc(&mut self, ptr: DevicePtr) -> Result<(), Error>;
}

/// Device allocation for stateless implementations, usable through a shared
/// reference.
pub trait DeviceAllocRef {
    fn alloc_untagged(&self, layout: Layout) -> Result<DevicePtr, Error>;

    fn alloc_with_tag(&self, layout: Layout, tag: u16) -> Result<DevicePtr, Error>;

    /// A region of `height_in_rows` rows with its row stride.
    fn alloc_pitch(
        &self,
        width_in_bytes: usize,
        height_in_rows: usize,
        element_byte_size: usize,
    ) -> Result<(DevicePtr, usize), Error>;

    fn alloc_pitch_with_tag(
        &self,
        width_in_bytes: usize,
        height_in_rows: usize,
        element_byte_size: usize,
        tag: u16,
    ) -> Result<(DevicePtr, usize), Error>;

    fn dealloc(&self, ptr: DevicePtr) -> Result<(), Error>;
}

} // verus!
