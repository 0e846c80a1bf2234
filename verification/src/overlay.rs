//! Placement of the pin badge that floats over a pinned window's title bar.
//!
//! The badge sits at the right of the caption, left of the three caption
//! buttons: `right = window.right - (3 * caption_button_w + pad)`,
//! `left = right - icon`, `top = window.top + top_offset`,
//! `bottom = top + icon`. The four sizes scale with the monitor's DPI; the
//! caller computes them for the DPI at hand.

use vstd::prelude::*;
use crate::win::Rect;

verus! {

/// Side length of the badge at 96 DPI, in physical pixels.
pub const BASE_ICON_PX: i32 = 24;

/// Width of one caption button at 96 DPI.
pub const BASE_CAPTION_BUTTON_PX: i32 = 46;

/// Gap between the badge and the caption buttons at 96 DPI.
pub const BASE_PAD_PX: i32 = 4;

/// Distance of the badge below the window's top edge at 96 DPI.
pub const BASE_TOP_OFFSET_PX: i32 = 3;

/// The badge rectangle for the given window and DPI-scaled sizes.
pub open spec fn overlay_rect(
    window: Rect,
    icon: int,
    caption_button_w: int,
    pad: int,
    top_offset: int,
) -> (int, int, int, int) {
    let right = window.right - caption_button_w * 3 - pad;
    let top = window.top + top_offset;
    (right - icon, top, right, top + icon)
}

/// Every intermediate value of the placement fits in an `i32`.
pub open spec fn placement_fits(
    window: Rect,
    icon: int,
    caption_button_w: int,
    pad: int,
    top_offset: int,
) -> bool {
    let strip = caption_button_w * 3;
    let right = window.right - strip - pad;
    let top = window.top + top_offset;
    &&& i32::MIN <= strip <= i32::MAX
    &&& i32::MIN <= window.right - strip <= i32::MAX
    &&& i32::MIN <= right <= i32::MAX
    &&& i32::MIN <= right - icon <= i32::MAX
    &&& i32::MIN <= top <= i32::MAX
    &&& i32::MIN <= top + icon <= i32::MAX
}

/// Places the badge over `window` from the DPI-scaled badge side `icon`,
/// caption button width, gap and top offset.
pub fn place_overlay(window: Rect, icon: i32, caption_button_w: i32, pad: i32, top_offset: i32) -> (r: Rect)
    requires
        placement_fits(window, icon as int, caption_button_w as int, pad as int, top_offset as int),
    ensures
        (r.left as int, r.top as int, r.right as int, r.bottom as int) == overlay_rect(
            window,
            icon as int,
            caption_button_w as int,
            pad as int,
            top_offset as int,
        ),
{
    let strip = caption_button_w * 3;
    let right = window.right - strip - pad;
    let left = right - icon;
    let top = window.top + top_offset;
    let bottom = top + icon;
    Rect { left, top, right, bottom }
}

/// The badge is a square of side `icon`, placed `top_offset` below the
/// window's top and ending `3 * caption_button_w + pad` left of its right
/// edge.
pub proof fn lemma_overlay_is_square(
    window: Rect,
    icon: int,
    caption_button_w: int,
    pad: int,
    top_offset: int,
)
    ensures
        ({
            let (l, t, r, b) = overlay_rect(window, icon, caption_button_w, pad, top_offset);
            &&& r - l == icon
            &&& b - t == icon
            &&& t - window.top == top_offset
            &&& window.right - r == 3 * caption_button_w + pad
        }),
{
}

} // verus!
