//! A minimal 2D raster buffer: a fixed-resolution grid of single-byte pixel
//! values supporting whole-buffer fill, single-pixel write, and rectangular
//! block copy between buffers or within one.
//!
//! The grid has a visible area surrounded by border padding; all coordinates
//! range over the padded dimensions. Out-of-range coordinates are reported as
//! [`OutOfBounds`] and leave the target untouched.

use vstd::prelude::*;

pub mod framebuffer;
pub mod laws;
pub mod scanline;

verus! {

/// Width of the visible area, in pixels.
pub const SCREEN_WIDTH: usize = 4;
/// Height of the visible area, in pixels.
pub const SCREEN_HEIGHT: usize = 3;
/// Border padding columns on each side.
pub const HORIZONTAL_PAD: usize = 1;
/// Border padding rows on each side.
pub const VERTICAL_PAD: usize = 1;
/// Padding columns added over both sides together.
pub const HORIZONTAL_EXTRA: usize = HORIZONTAL_PAD * 2;
/// Padding rows added over both sides together.
pub const VERTICAL_EXTRA: usize = VERTICAL_PAD * 2;
/// Total width of a row, padding included.
pub const TOTAL_WIDTH: usize = SCREEN_WIDTH + HORIZONTAL_EXTRA;
/// Total number of rows, padding included.
pub const TOTAL_HEIGHT: usize = SCREEN_HEIGHT + VERTICAL_EXTRA;

/// The single error kind: a coordinate, offset, or offset-plus-extent
/// combination fell outside the valid range of the target structure.
/// The operation that reports it has performed no mutation.
#[derive(Clone, Copy, Debug, PartialEq, Eq, Structural)]
pub struct OutOfBounds;

} // verus!
