use pin::cursor::{mask_row_bytes, CursorHotspot, CURSOR_SIZE_PX};
use pin::overlay::{
    place_overlay, BASE_CAPTION_BUTTON_PX, BASE_ICON_PX, BASE_PAD_PX, BASE_TOP_OFFSET_PX,
};
use pin::win::Rect;

#[test]
fn badge_at_96_dpi_sits_inside_window_near_top_right() {
    let win = Rect { left: 100, top: 200, right: 900, bottom: 800 };
    let r = place_overlay(win, BASE_ICON_PX, BASE_CAPTION_BUTTON_PX, BASE_PAD_PX, BASE_TOP_OFFSET_PX);
    assert!(r.left > win.left && r.right < win.right);
    assert_eq!(r.width(), BASE_ICON_PX);
    assert_eq!(r.height(), BASE_ICON_PX);
    assert_eq!(r, Rect { left: 900 - 138 - 4 - 24, top: 203, right: 900 - 138 - 4, bottom: 227 });
}

#[test]
fn badge_scales_with_sizes() {
    let win = Rect { left: 0, top: 0, right: 1000, bottom: 600 };
    let r96 = place_overlay(win, 24, 46, 4, 3);
    let r192 = place_overlay(win, 48, 92, 8, 6);
    assert!(r192.width() > r96.width());
    assert!(r192.height() > r96.height());
    assert!(r96.top < 30);
    assert!(r96.right > win.right * 8 / 10);
    assert_eq!(r192, Rect { left: 1000 - 276 - 8 - 48, top: 6, right: 1000 - 276 - 8, bottom: 54 });
}

#[test]
fn cursor_hotspots() {
    assert_eq!(CursorHotspot::TopLeft.coords(CURSOR_SIZE_PX), (0, 0));
    assert_eq!(CursorHotspot::Center.coords(CURSOR_SIZE_PX), (16, 16));
    assert_eq!(CursorHotspot::Center.coords(33), (16, 16));
}

/// The badge rectangle at `dpi`, for the two DPIs used below, where each
/// scaled size is the 96-DPI size times `dpi / 96` exactly.
fn overlay_at(win: Rect, dpi: i32) -> Rect {
    assert!(dpi == 96 || dpi == 192);
    let k = dpi / 96;
    place_overlay(
        win,
        BASE_ICON_PX * k,
        BASE_CAPTION_BUTTON_PX * k,
        BASE_PAD_PX * k,
        BASE_TOP_OFFSET_PX * k,
    )
}

#[test]
fn overlay_rect_inside_window_at_96_dpi() {
    let win = Rect { left: 100, top: 200, right: 900, bottom: 800 };
    let r = overlay_at(win, 96);
    assert!(r.left > win.left && r.right < win.right);
    assert_eq!(r.width(), BASE_ICON_PX);
    assert_eq!(r.height(), BASE_ICON_PX);
}

#[test]
fn overlay_rect_scales_with_dpi() {
    let win = Rect { left: 0, top: 0, right: 1000, bottom: 600 };
    let r96 = overlay_at(win, 96);
    let r192 = overlay_at(win, 192);
    assert!(r192.width() > r96.width());
    assert!(r192.height() > r96.height());
}

#[test]
fn overlay_rect_anchored_near_top_right() {
    let win = Rect { left: 0, top: 0, right: 1000, bottom: 600 };
    let r = overlay_at(win, 96);
    assert!(r.top < 30, "top={} should be in title bar", r.top);
    assert!(r.right > win.right * 8 / 10, "should sit near right edge");
}

#[test]
fn mask_rows_are_padded_to_words() {
    assert_eq!(mask_row_bytes(0), 0);
    assert_eq!(mask_row_bytes(1), 2);
    assert_eq!(mask_row_bytes(16), 2);
    assert_eq!(mask_row_bytes(17), 4);
    assert_eq!(mask_row_bytes(32), 4);
}
