//! Convenience utilities layered over a GPU device/queue API: reinterpreting
//! byte buffers as 32-bit word sequences for binary shader modules, an
//! asynchronous buffer-readback pipeline, and ceiling-alignment arithmetic.
//!
//! The device, queue and mapping primitives themselves live outside this
//! crate; what is verified here is the logic layered on top of them.

pub mod align;
pub mod readback;
pub mod spirv;
