//! A bump allocator for an accelerator's linear address space, with tagged
//! device-address handles and verified alignment arithmetic.
//!
//! The allocator decides and the caller talks to the device: each request
//! returns a `Plan` that is either finished or names the memory the device
//! must provide, which the caller then hands back.

pub mod align;
pub mod device;
pub mod error;
pub mod frame;
pub mod handle;
pub mod layout;

pub use align::{align_offset, align_up, MAX_ALIGNMENT, PITCH_ALIGNMENT};
pub use device::{DeviceAllocImpl, DeviceAllocRef};
pub use error::{optix_error, Error};
pub use frame::{DeviceFrameAllocator, FrameState, Plan};
pub use handle::{compose_tag, DevicePtr, DEFAULT_ALLOC_BIT, EXTERNAL_TAG_MASK, INTERNAL_TAG_MASK};
pub use layout::{Layout, LayoutError};
