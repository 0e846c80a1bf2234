//! The picking cursor's geometry.

use vstd::prelude::*;

verus! {

/// Side length of the picking cursor, in pixels.
pub const CURSOR_SIZE_PX: u32 = 32;

/// Where the active point of a square cursor lies.
#[derive(Debug, Clone, Copy, PartialEq, Eq, Structural)]
pub enum CursorHotspot {
    TopLeft,
    Center,
}

impl CursorHotspot {
    /// The hotspot's position in a cursor of `size_px` by `size_px` pixels.
    pub fn coords(&self, size_px: u32) -> (r: (u32, u32))
        ensures
            r == match *self {
                CursorHotspot::TopLeft => (0u32, 0u32),
                CursorHotspot::Center => ((size_px / 2) as u32, (size_px / 2) as u32),
            },
    {
        match self {
            CursorHotspot::TopLeft => (0, 0),
            CursorHotspot::Center => (size_px / 2, size_px / 2),
        }
    }
}

/// Bytes in one row of a monochrome bitmap `width` pixels wide: one bit
/// per pixel, rows padded to whole 16-bit words.
pub fn mask_row_bytes(width: usize) -> (r: usize)
    requires
        width + 15 <= usize::MAX,
    ensures
        r == (width + 15) / 16 * 2,
{
    (width + 15) / 16 * 2
}

} // verus!
