use vstd::prelude::*;

use super::image_error::ErrorCode;
use super::pixel_grid::ColorRgba;
use super::pixel_grid::PixelGrid;
use super::pixel_grid::bytes_to_colors;
use super::pixel_grid::colors_of;
use super::pixel_grid::flat_of;
use super::pixel_grid::lemma_colors_of_flat;
use super::pixel_grid::lemma_flat_of_colors;
use super::pixel_grid::lemma_len_quarter;
use super::pixel_grid::valid_dims;

verus! {

/// The bytes of the canonical (PNG) encoding of a w x h grid whose flat
/// RGBA samples are p.
pub uninterp spec fn png_encode(w: nat, h: nat, p: Seq<u8>) -> Seq<u8>;

/// What decoding a byte buffer yields: the dimensions and flat RGBA
/// samples of the image it holds, or nothing when it holds none.
pub uninterp spec fn png_decode(b: Seq<u8>) -> Option<(nat, nat, Seq<u8>)>;

/// The base64 text of a byte sequence, standard alphabet with padding.
pub uninterp spec fn b64_encode(b: Seq<u8>) -> Seq<char>;

/// What base64-decoding a text yields: the bytes it encodes, or nothing
/// when it is not valid base64.
pub uninterp spec fn b64_decode(s: Seq<char>) -> Option<Seq<u8>>;

/// The characters the standard base64 alphabet uses, padding included.
pub open spec fn is_base64_char(c: char) -> bool {
    ||| 'A' <= c <= 'Z'
    ||| 'a' <= c <= 'z'
    ||| '0' <= c <= '9'
    ||| c == '+'
    ||| c == '/'
    ||| c == '='
}

/// The single-channel luminance of each RGBA pixel of a flat sample
/// buffer, one byte per pixel.
pub uninterp spec fn luma_of(p: Seq<u8>) -> Seq<u8>;

/// The gradient magnitudes a 3x3 Sobel operator yields on a w x h
/// single-channel image, one value per pixel.
pub uninterp spec fn sobel_of(w: nat, h: nat, gray: Seq<u8>) -> Seq<u16>;

/// The flat RGBA samples after rotating every pixel's hue by the given
/// number of degrees.
pub uninterp spec fn hue_rotated_of(p: Seq<u8>, degrees: i32) -> Seq<u8>;

/// The flat RGBA samples after smoothing a w x h image with a median
/// window of the given radius.
pub uninterp spec fn median_blurred_of(w: nat, h: nat, p: Seq<u8>, radius: u32) -> Seq<u8>;

/// The flat RGBA samples of a w x h left-to-right linear blend between
/// two colors.
pub uninterp spec fn hgradient_of(w: nat, h: nat, from: ColorRgba, to: ColorRgba) -> Seq<u8>;

/// The flat RGBA samples of a w x h top-to-bottom linear blend between
/// two colors.
pub uninterp spec fn vgradient_of(w: nat, h: nat, from: ColorRgba, to: ColorRgba) -> Seq<u8>;

/// The flat RGBA samples after resampling a w x h image to fit within
/// nw x nh with a Lanczos filter, aspect ratio kept.
pub uninterp spec fn resized_of(w: nat, h: nat, p: Seq<u8>, nw: nat, nh: nat) -> Seq<u8>;

/// Relies on image::load_from_memory: it deterministically decodes any
/// supported raster container (under its default limits) and rejects a
/// buffer that holds none, and to_rgba8 yields exactly 4 bytes per
/// pixel. Nothing is claimed of the decoded dimensions: a container can
/// declare zero or enormous ones, and the caller validates them.
#[verifier::external_body]
pub(crate) fn png_decode_exec(bytes: &Vec<u8>) -> (r: Result<(u32, u32, Vec<u8>), ErrorCode>)
    ensures
        r matches Ok(t) ==> {
            &&& png_decode(bytes@) == Some((t.0 as nat, t.1 as nat, t.2@))
            &&& t.2@.len() == 4 * t.0 * t.1
        },
        r matches Err(e) ==> png_decode(bytes@) is None && e == ErrorCode::UnableToDecode,
{
    match image::load_from_memory(bytes.as_slice()) {
        Ok(img) => {
            let buf = img.to_rgba8();
            let (w, h) = (buf.width(), buf.height());
            Ok((w, h, buf.into_raw()))
        }
        Err(_) => Err(ErrorCode::UnableToDecode),
    }
}

/// Relies on image's PNG encoder through DynamicImage::write_to: encoding
/// RGBA8 samples as PNG is deterministic, supports any dimensions up to
/// 2^31 - 1, and is lossless, so decoding the produced bytes gives the
/// same samples back. The round trip is only promised for buffers within
/// 512 MiB: decoding with default limits refuses a larger allocation,
/// hence the size bound in the requires.
#[verifier::external_body]
pub(crate) fn png_encode_exec(w: u32, h: u32, p: &Vec<u8>) -> (r: Vec<u8>)
    requires
        1 <= w <= 0x7fff_ffff,
        1 <= h <= 0x7fff_ffff,
        p@.len() == 4 * w * h,
        p@.len() <= 0x2000_0000,
    ensures
        r@ == png_encode(w as nat, h as nat, p@),
        png_decode(r@) == Some((w as nat, h as nat, p@)),
        r@.len() > 0,
{
    let buf = image::RgbaImage::from_raw(w, h, p.clone()).unwrap();
    let img = image::DynamicImage::ImageRgba8(buf);
    let mut out: Vec<u8> = Vec::new();
    img.write_to(&mut std::io::Cursor::new(&mut out), image::ImageOutputFormat::Png).unwrap();
    out
}

/// Relies on base64::encode: standard alphabet with '=' padding, so the
/// text holds 4 characters for every 3 bytes begun, all from that
/// alphabet, and base64::decode inverts it, so decoding the text gives
/// the bytes back.
#[verifier::external_body]
pub(crate) fn b64_encode_exec(b: &Vec<u8>) -> (r: String)
    ensures
        r@ == b64_encode(b@),
        r@.len() == 4 * ((b@.len() + 2) / 3),
        forall|i: int| 0 <= i < r@.len() ==> is_base64_char(#[trigger] r@[i]),
        b64_decode(r@) == Some(b@),
{
    base64::encode(b.as_slice())
}

/// Relies on base64::decode: it deterministically decodes standard
/// base64 text and rejects any other.
#[verifier::external_body]
pub(crate) fn b64_decode_exec(s: &str) -> (r: Result<Vec<u8>, ErrorCode>)
    ensures
        r matches Ok(v) ==> b64_decode(s@) == Some(v@),
        r matches Err(e) ==> b64_decode(s@) is None && e == ErrorCode::UnableToDecode,
{
    match base64::decode(s) {
        Ok(v) => Ok(v),
        Err(_) => Err(ErrorCode::UnableToDecode),
    }
}

/// Relies on image::imageops::grayscale: it maps each pixel to its
/// luminance, a function of that pixel's channels alone, one byte per
/// pixel.
#[verifier::external_body]
pub(crate) fn luma_exec(w: u32, h: u32, p: &Vec<u8>) -> (r: Vec<u8>)
    requires
        p@.len() == 4 * w * h,
    ensures
        r@ == luma_of(p@),
        r@.len() == p@.len() / 4,
{
    let buf = image::RgbaImage::from_raw(w, h, p.clone()).unwrap();
    image::imageops::grayscale(&buf).into_raw()
}

/// Relies on imageproc::gradients::sobel_gradients: it returns the
/// Sobel gradient magnitude of each pixel of a single-channel image,
/// a function of the image alone.
#[verifier::external_body]
pub(crate) fn sobel_exec(w: u32, h: u32, gray: &Vec<u8>) -> (r: Vec<u16>)
    requires
        gray@.len() == w * h,
        1 <= w,
        1 <= h,
    ensures
        r@ == sobel_of(w as nat, h as nat, gray@),
        r@.len() == gray@.len(),
{
    let buf = image::GrayImage::from_raw(w, h, gray.clone()).unwrap();
    imageproc::gradients::sobel_gradients(&buf).into_raw()
}

/// Relies on image::imageops::huerotate: it rotates each pixel's hue by
/// the given degrees, a function of that pixel's channels and the angle
/// alone, keeping dimensions. At zero degrees its f64 rotation matrix is
/// exactly the identity (cos 0 and sin 0 are exact, and each diagonal
/// coefficient sums to exactly 1.0), so every sample comes back as it
/// was.
#[verifier::external_body]
pub(crate) fn huerotate_exec(w: u32, h: u32, p: &Vec<u8>, degrees: i32) -> (r: Vec<u8>)
    requires
        p@.len() == 4 * w * h,
    ensures
        r@ == hue_rotated_of(p@, degrees),
        r@.len() == p@.len(),
        degrees == 0 ==> r@ == p@,
{
    let buf = image::RgbaImage::from_raw(w, h, p.clone()).unwrap();
    image::imageops::huerotate(&buf, degrees).into_raw()
}

/// Relies on imageproc::filter::median_filter: it smooths the image
/// with a sliding median window of the given radius, keeping
/// dimensions, and a zero radius leaves every pixel as it was. The
/// radius bound keeps the kernel size (2r+1)^2 within u32 and every
/// window coordinate within i32, which the implementation relies on.
#[verifier::external_body]
pub(crate) fn median_blur_exec(w: u32, h: u32, p: &Vec<u8>, radius: u32) -> (r: Vec<u8>)
    requires
        p@.len() == 4 * w * h,
        radius <= 0x3fff,
    ensures
        r@ == median_blurred_of(w as nat, h as nat, p@, radius),
        r@.len() == p@.len(),
        radius == 0 ==> r@ == p@,
{
    let buf = image::RgbaImage::from_raw(w, h, p.clone()).unwrap();
    imageproc::filter::median_filter(&buf, radius, radius).into_raw()
}

/// Relies on image::imageops::horizontal_gradient: it fills a w x h
/// buffer with a left-to-right blend from one color to the other, a
/// function of the dimensions and the two colors alone; the blend is
/// computed once per column, the first column carries the start color
/// and the last the end color exactly (the lerp ratio is exactly 0
/// there and exactly 1 there). A width of 1 would divide 0 by 0 in the
/// ratio, which the requires rules out.
#[verifier::external_body]
pub(crate) fn horizontal_gradient_exec(w: u32, h: u32, from: ColorRgba, to: ColorRgba) -> (r: Vec<
    u8,
>)
    requires
        2 <= w,
        1 <= h,
        4 * w * h <= usize::MAX,
    ensures
        r@ == hgradient_of(w as nat, h as nat, from, to),
        r@.len() == 4 * w * h,
        forall|i: int|
            0 <= i < w * h ==> #[trigger] colors_of(r@)[i] == colors_of(r@)[i % (w as int)],
        forall|i: int|
            0 <= i < w * h && i % (w as int) == 0 ==> #[trigger] colors_of(r@)[i] == from,
        forall|i: int|
            0 <= i < w * h && i % (w as int) == w - 1 ==> #[trigger] colors_of(r@)[i] == to,
{
    let mut buf = image::RgbaImage::new(w, h);
    let s = image::Rgba([from.red, from.green, from.blue, from.alpha]);
    let e = image::Rgba([to.red, to.green, to.blue, to.alpha]);
    image::imageops::horizontal_gradient(&mut buf, &s, &e);
    buf.into_raw()
}

/// Relies on image::imageops::vertical_gradient: it fills a w x h
/// buffer with a top-to-bottom blend from one color to the other, a
/// function of the dimensions and the two colors alone; the blend is
/// computed once per row, the first row carries the start color and the
/// last the end color exactly (the lerp ratio is exactly 0 there and
/// exactly 1 there). A height of 1 would divide 0 by 0 in the ratio,
/// which the requires rules out.
#[verifier::external_body]
pub(crate) fn vertical_gradient_exec(w: u32, h: u32, from: ColorRgba, to: ColorRgba) -> (r: Vec<u8>)
    requires
        1 <= w,
        2 <= h,
        4 * w * h <= usize::MAX,
    ensures
        r@ == vgradient_of(w as nat, h as nat, from, to),
        r@.len() == 4 * w * h,
        forall|i: int|
            0 <= i < w * h ==> #[trigger] colors_of(r@)[i] == colors_of(r@)[(i / (w as int)) * (
            w as int)],
        forall|i: int|
            0 <= i < w * h && i / (w as int) == 0 ==> #[trigger] colors_of(r@)[i] == from,
        forall|i: int|
            0 <= i < w * h && i / (w as int) == h - 1 ==> #[trigger] colors_of(r@)[i] == to,
{
    let mut buf = image::RgbaImage::new(w, h);
    let s = image::Rgba([from.red, from.green, from.blue, from.alpha]);
    let e = image::Rgba([to.red, to.green, to.blue, to.alpha]);
    image::imageops::vertical_gradient(&mut buf, &s, &e);
    buf.into_raw()
}

/// Relies on DynamicImage::resize: it scales the image to the largest
/// size that fits within the requested bounds keeping the aspect ratio,
/// so both produced dimensions are at least 1 and at most the requested
/// ones, with a deterministic Lanczos resampling.
#[verifier::external_body]
pub(crate) fn resize_exec(w: u32, h: u32, p: &Vec<u8>, nw: u32, nh: u32) -> (r: (u32, u32, Vec<u8>))
    requires
        p@.len() == 4 * w * h,
        1 <= w,
        1 <= h,
        1 <= nw,
        1 <= nh,
    ensures
        r.2@ == resized_of(w as nat, h as nat, p@, nw as nat, nh as nat),
        r.2@.len() == 4 * r.0 * r.1,
        1 <= r.0 <= nw,
        1 <= r.1 <= nh,
{
    let buf = image::RgbaImage::from_raw(w, h, p.clone()).unwrap();
    let img = image::DynamicImage::ImageRgba8(buf).resize(nw, nh, image::imageops::FilterType::Lanczos3);
    let out = img.to_rgba8();
    let (rw, rh) = out.dimensions();
    (rw, rh, out.into_raw())
}

/// Whether a byte buffer decodes to an image whose dimensions a
/// well-formed grid can hold: at least one pixel each way, within the
/// canonical container's limits, and within the allocation bound.
pub open spec fn grid_decodable(b: Seq<u8>) -> bool {
    match png_decode(b) {
        Some(t) => valid_dims(t.0, t.1, t.2.len() / 4),
        None => false,
    }
}

/// Decodes a byte buffer into a pixel grid; fails exactly when the
/// buffer is not a recognizable raster image, or declares dimensions no
/// well-formed grid can hold (empty, past the container limit, or past
/// the allocation bound).
pub fn decode(bytes: &Vec<u8>) -> (r: Result<PixelGrid, ErrorCode>)
    ensures
        r is Ok <==> grid_decodable(bytes@),
        r matches Ok(g) ==> g@.wf() && png_decode(bytes@) == Some(
            (g@.width, g@.height, flat_of(g@.pixels)),
        ),
        r matches Err(e) ==> !grid_decodable(bytes@) && e == ErrorCode::UnableToDecode,
{
    match png_decode_exec(bytes) {
        Ok((w, h, p)) => {
            proof {
                assert(4 * (w as int) * (h as int) == ((w as int) * (h as int)) * 4 && 0 <= (
                w as int) * (h as int)) by (nonlinear_arith)
                    requires
                        0 <= w,
                        0 <= h,
                ;
                vstd::arithmetic::div_mod::lemma_fundamental_div_mod_converse(
                    p@.len() as int,
                    4,
                    (w as int) * (h as int),
                    0,
                );
                lemma_flat_of_colors(p@);
            }
            let pixels = bytes_to_colors(&p);
            match PixelGrid::new(w, h, pixels) {
                Some(g) => Ok(g),
                None => Err(ErrorCode::UnableToDecode),
            }
        },
        Err(e) => Err(e),
    }
}

/// Encodes a pixel grid into the canonical container.
pub fn encode(g: &PixelGrid) -> (r: Vec<u8>)
    requires
        g@.wf(),
    ensures
        r@ == png_encode(g@.width, g@.height, flat_of(g@.pixels)),
        png_decode(r@) == Some((g@.width, g@.height, flat_of(g@.pixels))),
{
    let flat = g.raw_bytes();
    proof {
        assert(flat@.len() == 4 * g@.width * g@.height) by (nonlinear_arith)
            requires
                flat@.len() == 4 * g@.pixels.len(),
                g@.pixels.len() == g@.width * g@.height,
        ;
    }
    png_encode_exec(g.width(), g.height(), &flat)
}

/// Round-trip fidelity through the canonical encoding: decoding the
/// encoding of any well-formed grid gives the grid back.
pub fn reencode(g: &PixelGrid) -> (r: PixelGrid)
    requires
        g@.wf(),
    ensures
        r@ == g@,
{
    let bytes = encode(g);
    proof {
        assert(4 * (g@.width * g@.height) == 4 * g@.width * g@.height) by (nonlinear_arith);
        lemma_len_quarter(flat_of(g@.pixels).len() as int, (g@.width * g@.height) as int);
        assert(grid_decodable(bytes@));
    }
    match decode(&bytes) {
        Ok(r) => {
            proof {
                lemma_colors_of_flat(g@.pixels);
                assert(flat_of(r@.pixels) == flat_of(g@.pixels));
                assert(r@.pixels =~= colors_of(flat_of(r@.pixels))) by {
                    lemma_colors_of_flat(r@.pixels);
                }
                assert(r@ =~= g@);
            }
            r
        },
        Err(_) => vstd::pervasive::unreached(),
    }
}

} // verus!
