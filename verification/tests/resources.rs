use pin::resources::{
    decode_png, decode_png_resized, try_decode_png_resized, pin_off, pin_on, premultiply_bgra_inplace, rgba_to_bgra,
    ResourceError, CANCEL_PNG, PIN_OFF_PNG, PIN_ON_PNG,
};

#[test]
fn pin_on_decodes() {
    let img = pin_on().expect("pin_on png");
    assert!(img.width > 0 && img.height > 0);
    assert_eq!(img.pixels.len() as u32, img.width * img.height * 4);
}

#[test]
fn pin_off_decodes() {
    let img = pin_off().expect("pin_off png");
    assert!(img.width > 0 && img.height > 0);
    assert_eq!(img.pixels.len() as u32, img.width * img.height * 4);
}

#[test]
fn cancel_decodes() {
    let img = decode_png(&CANCEL_PNG).expect("cancel png");
    assert!(img.width > 0 && img.height > 0);
    assert_eq!(img.pixels.len() as u32, img.width * img.height * 4);
}

#[test]
fn decode_png_resized_pin_on_to_32() {
    let img = decode_png_resized(&PIN_ON_PNG, 32, 32).expect("resize pin_on");
    assert_eq!(img.width, 32);
    assert_eq!(img.height, 32);
    assert_eq!(img.pixels.len(), 32 * 32 * 4);
}

#[test]
fn decode_png_resized_pin_off_to_16() {
    let img = decode_png_resized(&PIN_OFF_PNG, 16, 16).expect("resize pin_off");
    assert_eq!(img.width, 16);
    assert_eq!(img.height, 16);
    assert_eq!(img.pixels.len(), 16 * 16 * 4);
}

#[test]
fn decode_png_resized_cancel_to_32_has_visible_pixels() {
    let img = decode_png_resized(&CANCEL_PNG, 32, 32).expect("resize cancel");
    assert_eq!(img.width, 32);
    assert_eq!(img.height, 32);
    assert_eq!(img.pixels.len(), 32 * 32 * 4);
    assert!(img.pixels.chunks_exact(4).any(|p| p[3] > 0));
}

#[test]
fn pin_off_decodes_to_cursor_size() {
    let img = decode_png_resized(&PIN_OFF_PNG, 32, 32).expect("decode pin_off resized");
    assert_eq!(img.width, 32);
    assert_eq!(img.height, 32);
    assert_eq!(img.pixels.len() as u32, 32 * 32 * 4);
}

#[test]
fn pin_off_has_visible_pixels() {
    let img = decode_png_resized(&PIN_OFF_PNG, 32, 32).unwrap();
    let opaque_count = img.pixels.chunks_exact(4).filter(|p| p[3] > 0).count();
    assert!(opaque_count > 0, "pin_off has zero opaque pixels after resize");
}

#[test]
fn embedded_images_are_48_px_with_some_transparency() {
    for bytes in [&PIN_ON_PNG[..], &PIN_OFF_PNG[..], &CANCEL_PNG[..]] {
        let img = decode_png(bytes).unwrap();
        assert_eq!((img.width, img.height), (48, 48));
        assert!(img.pixels.chunks_exact(4).any(|p| p[3] == 0));
        assert!(img.pixels.chunks_exact(4).any(|p| p[3] == 255));
    }
}

#[test]
fn resizing_changes_the_pixels() {
    let full = decode_png(&PIN_ON_PNG).unwrap();
    let small = decode_png_resized(&PIN_ON_PNG, 24, 24).unwrap();
    assert_ne!(small.pixels.len(), full.pixels.len());
    let same = decode_png_resized(&PIN_ON_PNG, 48, 48).unwrap();
    assert_eq!(same.pixels, full.pixels);
}

#[test]
fn garbage_is_not_a_png() {
    let r = decode_png(&[1, 2, 3, 4]);
    assert!(matches!(r, Err(ResourceError::Decode(_))));
    let r = decode_png_resized(&[0x89, b'P', b'N', b'G'], 8, 8);
    assert!(matches!(r, Err(ResourceError::Decode(_))));
}

#[test]
fn rgba_to_bgra_swaps_red_and_blue() {
    let src: [u8; 8] = [10, 20, 30, 40, 50, 60, 70, 80];
    let out = rgba_to_bgra(&src);
    assert_eq!(out, [30, 20, 10, 40, 70, 60, 50, 80]);
}

#[test]
fn rgba_to_bgra_returns_same_length() {
    let src = vec![0u8; 16 * 16 * 4];
    let out = rgba_to_bgra(&src);
    assert_eq!(out.len(), src.len());
}

#[test]
fn rgba_to_bgra_zeroes_partial_pixel_and_is_involution() {
    let src: [u8; 7] = [1, 2, 3, 4, 5, 6, 7];
    assert_eq!(rgba_to_bgra(&src), vec![3, 2, 1, 4, 0, 0, 0]);
    let whole: Vec<u8> = (0u8..32).collect();
    assert_eq!(rgba_to_bgra(&rgba_to_bgra(&whole)), whole);
    assert_eq!(rgba_to_bgra(&[]), Vec::<u8>::new());
}

#[test]
fn premultiply_bgra_inplace_zero_alpha_zeros_color() {
    let mut buf = [100, 150, 200, 0, 255, 255, 255, 0];
    premultiply_bgra_inplace(&mut buf);
    assert_eq!(buf[0..3], [0, 0, 0]);
    assert_eq!(buf[3], 0);
    assert_eq!(buf[4..7], [0, 0, 0]);
    assert_eq!(buf[7], 0);
}

#[test]
fn premultiply_bgra_inplace_full_alpha_keeps_color() {
    let mut buf = [10u8, 20, 30, 255, 40, 50, 60, 255];
    premultiply_bgra_inplace(&mut buf);
    assert_eq!(buf[0..3], [10, 20, 30]);
    assert_eq!(buf[3], 255);
    assert_eq!(buf[4..7], [40, 50, 60]);
    assert_eq!(buf[7], 255);
}

#[test]
fn premultiply_bgra_inplace_half_alpha_halves_color() {
    let mut buf = [200u8, 200, 200, 128];
    premultiply_bgra_inplace(&mut buf);
    assert_eq!(buf[0..3], [100, 100, 100]);
    assert_eq!(buf[3], 128);
}

#[test]
fn premultiply_leaves_trailing_bytes_and_rounds_down() {
    let mut buf = [255u8, 1, 254, 1, 9, 9];
    premultiply_bgra_inplace(&mut buf);
    assert_eq!(buf, [1, 0, 0, 1, 9, 9]);
}

#[test]
fn bounded_resize_matches_plain_resize() {
    let a = try_decode_png_resized(&PIN_OFF_PNG, 20, 10).expect("within bounds").unwrap();
    let b = decode_png_resized(&PIN_OFF_PNG, 20, 10).unwrap();
    assert_eq!((a.width, a.height), (20, 10));
    assert_eq!(a.pixels, b.pixels);
    assert!(matches!(
        try_decode_png_resized(&[7, 7], 4, 4),
        Some(Err(ResourceError::Decode(_)))
    ));
}
