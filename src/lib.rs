//! A fixed-capacity bump allocator for transient, per-frame allocations.
//!
//! The arena owns one byte buffer whose length never changes. Allocations
//! move a cursor forward, rounding it up to the requested alignment, and a
//! reset rewinds the cursor to the start of the buffer.
pub mod arena;
pub mod draw_list;
pub mod plain;
pub mod sequence;

pub use draw_list::{build_frame_draw_list, DrawCommand};
