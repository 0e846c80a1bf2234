//! Embedded icons and the pixel conversions that layered windows and
//! cursors need.
//!
//! Decoding and resizing PNG data is done by the `image` crate; the
//! conversions from RGBA to premultiplied BGRA are this module's own.

use vstd::prelude::*;

verus! {

/// Badge drawn over a pinned window: a red pin, PNG.
pub const PIN_ON_PNG: [u8; 178] = [
    0x89, 0x50, 0x4e, 0x47, 0x0d, 0x0a, 0x1a, 0x0a, 0x00, 0x00, 0x00, 0x0d, 0x49, 0x48, 0x44, 0x52,
    0x00, 0x00, 0x00, 0x30, 0x00, 0x00, 0x00, 0x30, 0x08, 0x06, 0x00, 0x00, 0x00, 0x57, 0x02, 0xf9,
    0x87, 0x00, 0x00, 0x00, 0x79, 0x49, 0x44, 0x41, 0x54, 0x78, 0xda, 0xed, 0xd8, 0xb1, 0x0d, 0x80,
    0x20, 0x14, 0x04, 0x50, 0x66, 0x62, 0xff, 0x51, 0xac, 0x5d, 0x43, 0x5b, 0x0b, 0x0b, 0xa3, 0x04,
    0x38, 0x7c, 0x97, 0xd0, 0xdf, 0x4b, 0x80, 0x7c, 0x28, 0x45, 0x44, 0x9a, 0x67, 0xab, 0xf5, 0xb8,
    0x5b, 0xb1, 0xc5, 0xa7, 0x87, 0x3c, 0x2d, 0x3e, 0x25, 0xe4, 0x6d, 0xf9, 0x69, 0x10, 0xd1, 0x80,
    0xaf, 0xe5, 0x87, 0x23, 0x00, 0x46, 0x02, 0x5a, 0x95, 0x1f, 0x86, 0x00, 0x58, 0x69, 0x1b, 0x39,
    0xc4, 0xbf, 0x05, 0x2c, 0x31, 0x4a, 0xc4, 0x0f, 0x73, 0x4b, 0x00, 0x62, 0xde, 0x03, 0xad, 0xef,
    0xfe, 0xee, 0x40, 0x00, 0x80, 0xbe, 0xe7, 0x65, 0xbf, 0xae, 0xc4, 0xaf, 0x15, 0x00, 0x00, 0x00,
    0x00, 0x00, 0x00, 0x00, 0x00, 0x00, 0x00, 0x00, 0x80, 0x4c, 0x80, 0x48, 0x48, 0x4e, 0xbe, 0x7c,
    0x02, 0x69, 0x44, 0xf4, 0x8e, 0x75, 0x00, 0x00, 0x00, 0x00, 0x49, 0x45, 0x4e, 0x44, 0xae, 0x42,
    0x60, 0x82,
];

/// Tray icon and picking cursor: a grey tilted pin, PNG.
pub const PIN_OFF_PNG: [u8; 229] = [
    0x89, 0x50, 0x4e, 0x47, 0x0d, 0x0a, 0x1a, 0x0a, 0x00, 0x00, 0x00, 0x0d, 0x49, 0x48, 0x44, 0x52,
    0x00, 0x00, 0x00, 0x30, 0x00, 0x00, 0x00, 0x30, 0x08, 0x06, 0x00, 0x00, 0x00, 0x57, 0x02, 0xf9,
    0x87, 0x00, 0x00, 0x00, 0xac, 0x49, 0x44, 0x41, 0x54, 0x78, 0xda, 0xed, 0x98, 0x4b, 0x0a, 0xc0,
    0x20, 0x10, 0xc5, 0x3c, 0xb6, 0x27, 0xf6, 0x1a, 0xed, 0xa6, 0x8b, 0x22, 0x58, 0x47, 0xab, 0x98,
    0x07, 0x2f, 0xe0, 0x7a, 0x12, 0xe8, 0x6f, 0x9a, 0x92, 0x31, 0xc6, 0x18, 0x25, 0x72, 0xce, 0x57,
    0xeb, 0xc8, 0x8a, 0xe3, 0x43, 0x46, 0xe4, 0x71, 0x11, 0x33, 0xf2, 0x98, 0x88, 0x3f, 0xf2, 0x88,
    0x08, 0x7c, 0xc0, 0xd7, 0x90, 0x15, 0xf2, 0x5b, 0x23, 0x7a, 0x43, 0xd0, 0x01, 0x91, 0x41, 0x92,
    0x01, 0xef, 0x61, 0x72, 0x97, 0x50, 0x3d, 0x10, 0x1f, 0xb0, 0x5a, 0xf2, 0xf8, 0x93, 0x48, 0x36,
    0x60, 0x77, 0x84, 0xd4, 0x4b, 0xeb, 0xf8, 0x9b, 0x58, 0x5a, 0x7e, 0x75, 0x84, 0xf4, 0x37, 0xd0,
    0x69, 0xf9, 0xf2, 0x1c, 0xc9, 0xcf, 0xe7, 0x52, 0x1d, 0xa9, 0xad, 0xab, 0x96, 0x2f, 0x32, 0x3b,
    0x70, 0x4b, 0x5e, 0x62, 0x91, 0xef, 0xc9, 0xa3, 0x23, 0xa2, 0xf2, 0xc8, 0x88, 0x51, 0x79, 0x54,
    0xc4, 0xac, 0xfc, 0xc8, 0x42, 0x84, 0x95, 0x8f, 0xae, 0xa4, 0x68, 0xf9, 0xc8, 0x4f, 0x01, 0xbc,
    0xbc, 0xc4, 0x0d, 0x8b, 0x0d, 0x50, 0xfd, 0x2d, 0xae, 0x2b, 0x6f, 0x8c, 0x31, 0xc6, 0x50, 0xb9,
    0x01, 0xc6, 0x28, 0x7b, 0x4f, 0x83, 0xcf, 0x79, 0x70, 0x00, 0x00, 0x00, 0x00, 0x49, 0x45, 0x4e,
    0x44, 0xae, 0x42, 0x60, 0x82,
];

/// Cancel mark: a red cross, PNG.
pub const CANCEL_PNG: [u8; 245] = [
    0x89, 0x50, 0x4e, 0x47, 0x0d, 0x0a, 0x1a, 0x0a, 0x00, 0x00, 0x00, 0x0d, 0x49, 0x48, 0x44, 0x52,
    0x00, 0x00, 0x00, 0x30, 0x00, 0x00, 0x00, 0x30, 0x08, 0x06, 0x00, 0x00, 0x00, 0x57, 0x02, 0xf9,
    0x87, 0x00, 0x00, 0x00, 0xbc, 0x49, 0x44, 0x41, 0x54, 0x78, 0xda, 0xed, 0x99, 0xcb, 0x0d, 0x80,
    0x30, 0x0c, 0x43, 0x3b, 0x4e, 0xf7, 0x1f, 0x85, 0x85, 0xe0, 0x8e, 0xf8, 0x88, 0xc6, 0xce, 0xc7,
    0xc4, 0x12, 0x47, 0xe2, 0x67, 0x01, 0x6d, 0x13, 0xc6, 0x68, 0xb5, 0x5a, 0x7a, 0xda, 0xe6, 0xdc,
    0xcf, 0x57, 0x29, 0x86, 0xab, 0x9b, 0x3d, 0x43, 0x98, 0xfd, 0xef, 0x0a, 0x78, 0x84, 0x80, 0x78,
    0x3f, 0x15, 0x61, 0x86, 0x80, 0xf9, 0xbe, 0x15, 0x62, 0x84, 0x80, 0x7b, 0x7a, 0x86, 0xa0, 0x79,
    0x79, 0x84, 0xa0, 0x7b, 0x30, 0x0d, 0xdc, 0x9e, 0x32, 0xc3, 0xc8, 0xfd, 0x3b, 0x43, 0x1a, 0x46,
    0x2c, 0x12, 0x30, 0xe3, 0x30, 0x78, 0x04, 0x40, 0x38, 0xbc, 0x05, 0x24, 0x0d, 0xfc, 0x0a, 0x50,
    0x3a, 0xf8, 0x2f, 0x60, 0x69, 0xe1, 0x51, 0x21, 0xd2, 0xf6, 0x0f, 0x65, 0xe0, 0x57, 0x43, 0x94,
    0xe9, 0xe4, 0xca, 0xc0, 0x97, 0x0f, 0xf0, 0xab, 0xf7, 0x5f, 0x62, 0x05, 0x92, 0xd8, 0x03, 0xd2,
    0xef, 0xc2, 0x12, 0xe7, 0x20, 0x89, 0x93, 0xa8, 0x44, 0x2f, 0x20, 0xd1, 0x8d, 0x49, 0xf4, 0xc3,
    0x12, 0x13, 0x09, 0x89, 0x99, 0x90, 0xc4, 0x54, 0x4e, 0x62, 0x2e, 0x4a, 0xf1, 0x94, 0x1e, 0xaf,
    0x97, 0xfe, 0xc1, 0x11, 0x7d, 0x54, 0x31, 0x15, 0xc8, 0x70, 0x58, 0x1c, 0xad, 0x56, 0x4b, 0x4f,
    0x07, 0xdd, 0x08, 0x06, 0x28, 0x71, 0x6b, 0x1c, 0x80, 0x00, 0x00, 0x00, 0x00, 0x49, 0x45, 0x4e,
    0x44, 0xae, 0x42, 0x60, 0x82,
];

/// A decoded image: `width * height` pixels, four bytes each, in R, G, B, A
/// order, row by row.
pub struct Rgba {
    pub width: u32,
    pub height: u32,
    pub pixels: Vec<u8>,
}

/// Why an embedded image could not be loaded.
#[derive(Debug)]
pub enum ResourceError {
    /// The bytes are not a PNG image that the decoder accepts.
    Decode(image::ImageError),
}

#[verifier::external_type_specification]
#[verifier::external_body]
pub struct ExImageError(image::ImageError);

/// The image that the `image` crate decodes from the PNG data `bytes` and
/// converts to 8-bit RGBA: width, height and pixel bytes, or `None` when it
/// refuses the data.
pub uninterp spec fn png_rgba8(bytes: Seq<u8>) -> Option<(u32, u32, Seq<u8>)>;

/// The pixels that the `image` crate's `resize` with the triangle filter
/// computes from a `width` by `height` RGBA image for a size of `nwidth` by
/// `nheight`.
pub uninterp spec fn triangle_resized(
    width: u32,
    height: u32,
    pixels: Seq<u8>,
    nwidth: u32,
    nheight: u32,
) -> Seq<u8>;

/// Calls `image::load_from_memory_with_format` with the PNG format and
/// converts the result with `to_rgba8`. Claims: the call succeeds exactly
/// when `png_rgba8` names an image, which is what it returns, with four
/// bytes for each pixel (the converted buffer is allocated at that size).
#[verifier::external_body]
fn load_png_rgba8(bytes: &[u8]) -> (r: Result<(u32, u32, Vec<u8>), image::ImageError>)
    ensures
        (r is Ok) == (png_rgba8(bytes@) is Some),
        r matches Ok((w, h, p)) ==> png_rgba8(bytes@) == Some((w, h, p@)) && p@.len() == w * h
            * 4,
{
    let img = image::load_from_memory_with_format(bytes, image::ImageFormat::Png)?.to_rgba8();
    let (w, h) = img.dimensions();
    Ok((w, h, img.into_raw()))
}

/// Calls `image::imageops::resize` with `FilterType::Triangle` on the RGBA
/// image that `pixels` holds (rebuilt with `ImageBuffer::from_raw`, which
/// accepts it since the length matches). Claims: the result is
/// `triangle_resized` of the arguments, with four bytes for each pixel of
/// the new size. `resize` allocates a `width` by `nheight` intermediate of
/// four channels and an `nwidth` by `nheight` output with
/// `ImageBuffer::new`, which panics when such a length overflows `usize`;
/// the bounds leave those inputs out.
#[verifier::external_body]
fn resize_rgba8_triangle(width: u32, height: u32, pixels: Vec<u8>, nwidth: u32, nheight: u32) -> (r: Vec<u8>)
    requires
        pixels@.len() == width * height * 4,
        nwidth * nheight * 4 <= usize::MAX,
        width * nheight * 4 <= usize::MAX,
    ensures
        r@ == triangle_resized(width, height, pixels@, nwidth, nheight),
        r@.len() == nwidth * nheight * 4,
{
    let img = image::RgbaImage::from_raw(width, height, pixels).unwrap();
    image::imageops::resize(&img, nwidth, nheight, image::imageops::FilterType::Triangle).into_raw()
}

/// `r` is what decoding the PNG data `bytes` gives.
pub open spec fn decoded_from(bytes: Seq<u8>, r: Result<Rgba, ResourceError>) -> bool {
    &&& (r is Ok) == (png_rgba8(bytes) is Some)
    &&& r matches Ok(img) ==> {
        &&& png_rgba8(bytes) == Some((img.width, img.height, img.pixels@))
        &&& img.pixels@.len() == img.width * img.height * 4
    }
}

/// Decodes PNG data into 8-bit RGBA pixels.
pub fn decode_png(bytes: &[u8]) -> (r: Result<Rgba, ResourceError>)
    ensures
        decoded_from(bytes@, r),
{
    match load_png_rgba8(bytes) {
        Ok((width, height, pixels)) => Ok(Rgba { width, height, pixels }),
        Err(e) => Err(ResourceError::Decode(e)),
    }
}

/// Resizing the image decoded from `bytes` to `height` rows fits in memory:
/// the resampler's intermediate buffer, as wide as the decoded image and
/// `height` rows high, has a length that fits in `usize`.
pub open spec fn resize_fits(bytes: Seq<u8>, height: u32) -> bool {
    png_rgba8(bytes) matches Some((w, h, p)) ==> w * height * 4 <= usize::MAX
}

/// `r` is what decoding `bytes` and resizing to `width` by `height` gives.
pub open spec fn decoded_resized_from(bytes: Seq<u8>, width: u32, height: u32, r: Result<Rgba, ResourceError>) -> bool {
    &&& (r is Ok) == (png_rgba8(bytes) is Some)
    &&& r matches Ok(img) ==> {
        &&& img.width == width
        &&& img.height == height
        &&& img.pixels@.len() == width * height * 4
        &&& png_rgba8(bytes) matches Some((w, h, p)) && img.pixels@ == triangle_resized(
            w,
            h,
            p,
            width,
            height,
        )
    }
}

/// Decodes PNG data and resizes it to exactly `width` by `height` with the
/// triangle filter.
pub fn decode_png_resized(bytes: &[u8], width: u32, height: u32) -> (r: Result<Rgba, ResourceError>)
    requires
        width * height * 4 <= usize::MAX,
        resize_fits(bytes@, height),
    ensures
        decoded_resized_from(bytes@, width, height, r),
{
    match load_png_rgba8(bytes) {
        Ok((w, h, p)) => {
            let pixels = resize_rgba8_triangle(w, h, p, width, height);
            Ok(Rgba { width, height, pixels })
        },
        Err(e) => Err(ResourceError::Decode(e)),
    }
}

/// [`decode_png_resized`] for any PNG data: `None` when the decoded image
/// is too wide to be resampled to `height` rows in this address space,
/// otherwise what `decode_png_resized` gives.
pub fn try_decode_png_resized(bytes: &[u8], width: u32, height: u32) -> (r: Option<Result<Rgba, ResourceError>>)
    requires
        width * height * 4 <= usize::MAX,
    ensures
        r is None <==> !resize_fits(bytes@, height),
        r matches Some(res) ==> decoded_resized_from(bytes@, width, height, res),
{
    match load_png_rgba8(bytes) {
        Ok((w, _h, _p)) => {
            assert((w as u128) * (height as u128) <= 0xFFFF_FFFFu128 * 0xFFFF_FFFFu128)
                by (nonlinear_arith)
                requires
                    w <= 0xFFFF_FFFFu32,
                    height <= 0xFFFF_FFFFu32,
            ;
            let wide = (w as u128) * (height as u128) * 4;
            if wide > usize::MAX as u128 {
                None
            } else {
                Some(decode_png_resized(bytes, width, height))
            }
        },
        Err(e) => Some(decode_png_resized(bytes, width, height)),
    }
}

/// The badge image, decoded.
pub fn pin_on() -> (r: Result<Rgba, ResourceError>)
    ensures
        decoded_from(PIN_ON_PNG@, r),
{
    decode_png(PIN_ON_PNG.as_slice())
}

/// The tray and cursor image, decoded.
pub fn pin_off() -> (r: Result<Rgba, ResourceError>)
    ensures
        decoded_from(PIN_OFF_PNG@, r),
{
    decode_png(PIN_OFF_PNG.as_slice())
}

/// Index of the source byte that lands at `i` when a pixel's R and B swap.
pub open spec fn bgra_source(i: int) -> int {
    if i % 4 == 0 {
        i + 2
    } else if i % 4 == 2 {
        i - 2
    } else {
        i
    }
}

/// Length of the part of a buffer of `len` bytes made of whole pixels.
pub open spec fn whole_pixels_len(len: int) -> int {
    len - len % 4
}

/// `out` is `src` with red and blue swapped in every whole pixel and zero
/// in the trailing bytes that do not make up a pixel.
pub open spec fn is_bgra_of(out: Seq<u8>, src: Seq<u8>) -> bool {
    &&& out.len() == src.len()
    &&& forall|i: int|
        0 <= i < whole_pixels_len(src.len() as int) ==> #[trigger] out[i] == src[bgra_source(i)]
    &&& forall|i: int| whole_pixels_len(src.len() as int) <= i < src.len() ==> #[trigger] out[i] == 0
}

/// Reorders a tightly packed RGBA buffer into BGRA, in a new buffer of the
/// same length. Bytes after the last whole pixel are zero.
pub fn rgba_to_bgra(src: &[u8]) -> (out: Vec<u8>)
    ensures
        is_bgra_of(out@, src@),
{
    let n = src.len();
    let mut out: Vec<u8> = vec![0u8; n];
    let mut o: usize = 0;
    while n - o >= 4
        invariant
            n == src@.len(),
            out@.len() == n,
            o % 4 == 0,
            o <= n,
            forall|i: int| 0 <= i < o ==> #[trigger] out@[i] == src@[bgra_source(i)],
            forall|i: int| o <= i < n ==> #[trigger] out@[i] == 0,
        decreases n - o,
    {
        out.set(o, src[o + 2]);
        out.set(o + 1, src[o + 1]);
        out.set(o + 2, src[o]);
        out.set(o + 3, src[o + 3]);
        o = o + 4;
    }
    assert(o == whole_pixels_len(n as int));
    out
}

/// A colour channel `c` scaled by the alpha `a`: `c * a / 255`.
pub open spec fn premultiplied(c: u8, a: u8) -> u8 {
    (c * a / 255) as u8
}

/// `new` is `old` with the first three channels of every whole pixel
/// multiplied by the pixel's alpha; alpha and trailing bytes are kept.
pub open spec fn is_premultiplied_of(new: Seq<u8>, old: Seq<u8>) -> bool {
    &&& new.len() == old.len()
    &&& forall|i: int|
        0 <= i < whole_pixels_len(old.len() as int) ==> #[trigger] new[i] == if i % 4 == 3 {
            old[i]
        } else {
            premultiplied(old[i], old[i - i % 4 + 3])
        }
    &&& forall|i: int| whole_pixels_len(old.len() as int) <= i < old.len() ==> #[trigger] new[i]
        == old[i]
}

fn premultiply_channel(c: u8, a: u8) -> (r: u8)
    ensures
        r == premultiplied(c, a),
{
    assert(c * a <= 255 * 255) by (nonlinear_arith)
        requires
            c <= 255,
            a <= 255,
    ;
    let p = (c as u32) * (a as u32);
    assert(p / 255 <= 255) by (nonlinear_arith)
        requires
            p <= 255 * 255,
    ;
    (p / 255) as u8
}

/// Multiplies B, G and R by alpha in place, pixel by pixel, as layered
/// windows with per-pixel alpha require. Alpha and bytes after the last
/// whole pixel are left alone.
pub fn premultiply_bgra_inplace(buf: &mut [u8])
    ensures
        is_premultiplied_of(final(buf)@, old(buf)@),
{
    let n = buf.len();
    let ghost orig = buf@;
    let mut o: usize = 0;
    while n - o >= 4
        invariant
            n == orig.len(),
            buf@.len() == n,
            o % 4 == 0,
            o <= n,
            forall|i: int|
                0 <= i < o ==> #[trigger] buf@[i] == if i % 4 == 3 {
                    orig[i]
                } else {
                    premultiplied(orig[i], orig[i - i % 4 + 3])
                },
            forall|i: int| o <= i < n ==> #[trigger] buf@[i] == orig[i],
        decreases n - o,
    {
        let a = buf[o + 3];
        let b0 = premultiply_channel(buf[o], a);
        buf[o] = b0;
        let b1 = premultiply_channel(buf[o + 1], a);
        buf[o + 1] = b1;
        let b2 = premultiply_channel(buf[o + 2], a);
        buf[o + 2] = b2;
        o = o + 4;
    }
    assert(o == whole_pixels_len(n as int));
}

/// Swapping red and blue twice gives back a buffer of whole pixels.
pub proof fn lemma_bgra_swap_is_involution(src: Seq<u8>, once: Seq<u8>, twice: Seq<u8>)
    requires
        src.len() % 4 == 0,
        is_bgra_of(once, src),
        is_bgra_of(twice, once),
    ensures
        twice == src,
{
    assert forall|i: int| 0 <= i < src.len() implies #[trigger] twice[i] == src[i] by {
        assert(twice[i] == once[bgra_source(i)]);
        assert(once[bgra_source(i)] == src[bgra_source(bgra_source(i))]);
    }
    assert(twice =~= src);
}

/// Premultiplying keeps a fully opaque channel, clears a fully transparent
/// one, and never brightens a channel.
pub proof fn lemma_premultiplied_bounds(c: u8, a: u8)
    ensures
        premultiplied(c, 255) == c,
        premultiplied(c, 0) == 0,
        premultiplied(c, a) <= c,
{
    assert(c * 255 / 255 == c) by (nonlinear_arith);
    assert(c * a <= c * 255) by (nonlinear_arith)
        requires
            a <= 255,
    ;
    assert(c * a / 255 <= c) by (nonlinear_arith)
        requires
            c * a <= c * 255,
    ;
}

/// Byte `c` of the pixel at `k` stands at `4 * k + c`, and its pixel's
/// alpha at `4 * k + 3`.
proof fn lemma_byte_in_pixel(k: int, c: int)
    requires
        0 <= k,
        0 <= c < 4,
    ensures
        (4 * k + c) % 4 == c,
        (4 * k + c) - (4 * k + c) % 4 + 3 == 4 * k + 3,
{
    assert((4 * k + c) % 4 == c) by (nonlinear_arith)
        requires
            0 <= c < 4,
            0 <= k,
    ;
}

/// Conversion to BGRA swaps red and blue inside each pixel and moves
/// nothing across pixels: the pixel at `k` comes out as its own blue, green,
/// red and alpha. Bytes past the last whole pixel come out zero.
pub proof fn lemma_bgra_pixel_layout(out: Seq<u8>, src: Seq<u8>, k: int)
    requires
        is_bgra_of(out, src),
        0 <= k,
        4 * k + 4 <= whole_pixels_len(src.len() as int),
    ensures
        out[4 * k] == src[4 * k + 2],
        out[4 * k + 1] == src[4 * k + 1],
        out[4 * k + 2] == src[4 * k],
        out[4 * k + 3] == src[4 * k + 3],
        out.len() == src.len(),
        forall|i: int| whole_pixels_len(src.len() as int) <= i < src.len() ==> out[i] == 0,
{
    let b = 4 * k;
    lemma_byte_in_pixel(k, 0);
    lemma_byte_in_pixel(k, 1);
    lemma_byte_in_pixel(k, 2);
    lemma_byte_in_pixel(k, 3);
    assert(out[b + 0] == src[bgra_source(b + 0)]);
    assert(out[b + 1] == src[bgra_source(b + 1)]);
    assert(out[b + 2] == src[bgra_source(b + 2)]);
    assert(out[b + 3] == src[bgra_source(b + 3)]);
}

/// Each pixel is scaled by its own alpha. In a premultiplied buffer the
/// pixel at `k` keeps its alpha, each of its three colour bytes becomes
/// that byte times the pixel's alpha divided by 255 (so a fully transparent
/// pixel comes out with its colour bytes zero), and the four bytes are what
/// premultiplying that pixel alone gives: no other pixel counts.
pub proof fn lemma_each_pixel_scaled_by_its_own_alpha(new: Seq<u8>, old: Seq<u8>, k: int)
    requires
        is_premultiplied_of(new, old),
        0 <= k,
        4 * k + 4 <= whole_pixels_len(old.len() as int),
    ensures
        new[4 * k + 3] == old[4 * k + 3],
        new[4 * k] == old[4 * k] * old[4 * k + 3] / 255,
        new[4 * k + 1] == old[4 * k + 1] * old[4 * k + 3] / 255,
        new[4 * k + 2] == old[4 * k + 2] * old[4 * k + 3] / 255,
        old[4 * k + 3] == 0 ==> new[4 * k] == 0 && new[4 * k + 1] == 0 && new[4 * k + 2] == 0,
        is_premultiplied_of(new.subrange(4 * k, 4 * k + 4), old.subrange(4 * k, 4 * k + 4)),
        new.len() == old.len(),
        forall|i: int| whole_pixels_len(old.len() as int) <= i < old.len() ==> new[i] == old[i],
{
    let b = 4 * k;
    let a = old[b + 3];
    assert(old.len() >= b + 4);
    assert forall|c: int| 0 <= c < 3 implies #[trigger] new[b + c] == old[b + c] * a / 255 by {
        lemma_byte_in_pixel(k, c);
        assert(new[b + c] == premultiplied(old[b + c], old[b + 3]));
        let x = old[b + c];
        assert(x * a / 255 <= 255) by (nonlinear_arith)
            requires
                x <= 255,
                a <= 255,
        ;
        assert(0 <= x * a / 255) by (nonlinear_arith)
            requires
                0 <= x,
                0 <= a,
        ;
    }
    lemma_byte_in_pixel(k, 3);
    assert(new[b + 3] == old[b + 3]);
    assert(new[b + 0] == old[b + 0] * a / 255);
    assert(new[b + 1] == old[b + 1] * a / 255);
    assert(new[b + 2] == old[b + 2] * a / 255);
    if a == 0 {
        assert(old[b] * a == 0 && old[b + 1] * a == 0 && old[b + 2] * a == 0);
    }
    let ns = new.subrange(b, b + 4);
    let os = old.subrange(b, b + 4);
    assert(whole_pixels_len(4) == 4);
    assert forall|i: int| 0 <= i < 4 implies #[trigger] ns[i] == if i % 4 == 3 {
        os[i]
    } else {
        premultiplied(os[i], os[i - i % 4 + 3])
    } by {
        lemma_byte_in_pixel(0, i);
        lemma_byte_in_pixel(k, i);
        assert(ns[i] == new[b + i]);
        assert(os[i] == old[b + i]);
        assert(os[3] == old[b + 3]);
    }
}

} // verus!
