//! Pixel composition for a tile-based handheld display controller.
//!
//! The crate turns a tile-indexed background map and packed tile bitmaps,
//! both read from the emulated address space, into an RGBA frame, and keeps
//! the scanline counter that decides when a frame is redrawn and presented.

pub mod gpu;
pub mod memory;
pub mod timing;
