use vstd::prelude::*;

use super::codec;
use super::codec::b64_decode;
use super::codec::b64_encode;
use super::codec::hue_rotated_of;
use super::codec::is_base64_char;
use super::codec::luma_of;
use super::codec::median_blurred_of;
use super::codec::grid_decodable;
use super::codec::png_decode;
use super::codec::png_encode;
use super::codec::resized_of;
use super::image_error::ErrorCode;
use super::image_filters::FilterPixelType;
use super::image_filters::GradientDirection;
use super::image_filters::band_filtered;
use super::image_filters::filter_band_color;
use super::image_filters::filter_gradient;
use super::image_filters::filter_pixel;
use super::image_filters::filter_sobel;
use super::image_filters::gradient_filtered;
use super::image_filters::mask_filtered;
use super::image_filters::sobel_filtered;
use super::image_processing_result::ImageDimension;
use super::image_processing_result::ImageProcessingResult;
use super::pixel_grid::ColorRgba;
use super::pixel_grid::GridView;
use super::pixel_grid::PixelGrid;
use super::pixel_grid::bytes_to_colors;
use super::pixel_grid::colors_of;
use super::pixel_grid::flat_of;
use super::pixel_grid::lemma_colors_of_flat;
use super::pixel_grid::lemma_len_quarter;
use vstd::arithmetic::div_mod::lemma_div_is_ordered;
use vstd::string::StrSliceExecFns;
use vstd::string::StringExecFns;

verus! {

/// An 8-bit channel value clamped from an unbounded computation.
pub open spec fn clamp8(v: int) -> u8 {
    if v < 0 {
        0u8
    } else if v > 255 {
        255u8
    } else {
        v as u8
    }
}

/// One sample brightened: each color channel moved by the delta and
/// clamped, the alpha kept.
pub open spec fn brighten_px(c: ColorRgba, d: int) -> ColorRgba {
    ColorRgba {
        red: clamp8(c.red + d),
        green: clamp8(c.green + d),
        blue: clamp8(c.blue + d),
        alpha: c.alpha,
    }
}

/// Every sample brightened by the delta.
pub open spec fn brightened(p: Seq<ColorRgba>, d: int) -> Seq<ColorRgba> {
    Seq::new(p.len(), |i: int| brighten_px(p[i], d))
}

/// Truncating division by 100, the sign kept aside.
pub open spec fn div100_trunc(num: int) -> int {
    if num >= 0 {
        num / 100
    } else {
        -((-num) / 100)
    }
}

/// One sample with its contrast moved by the signed delta: each color
/// channel is spread away from (or towards) the middle value 128 by the
/// factor (100 + delta) / 100, floored at zero, then clamped; the alpha
/// is kept. The factor is applied linearly, once.
pub open spec fn contrast_px(c: ColorRgba, d: int) -> ColorRgba {
    let f = if 100 + d < 0 {
        0
    } else {
        100 + d
    };
    ColorRgba {
        red: clamp8(div100_trunc((c.red - 128) * f) + 128),
        green: clamp8(div100_trunc((c.green - 128) * f) + 128),
        blue: clamp8(div100_trunc((c.blue - 128) * f) + 128),
        alpha: c.alpha,
    }
}

/// Every sample with its contrast moved by the delta.
pub open spec fn contrasted(p: Seq<ColorRgba>, d: int) -> Seq<ColorRgba> {
    Seq::new(p.len(), |i: int| contrast_px(p[i], d))
}

/// One sample inverted: each color channel replaced by its complement,
/// the alpha kept.
pub open spec fn invert_px(c: ColorRgba) -> ColorRgba {
    ColorRgba {
        red: (255 - c.red) as u8,
        green: (255 - c.green) as u8,
        blue: (255 - c.blue) as u8,
        alpha: c.alpha,
    }
}

/// Every sample inverted.
pub open spec fn inverted(p: Seq<ColorRgba>) -> Seq<ColorRgba> {
    Seq::new(p.len(), |i: int| invert_px(p[i]))
}

/// An opaque gray sample of the given luminance.
pub open spec fn gray_px(l: u8) -> ColorRgba {
    ColorRgba { red: l, green: l, blue: l, alpha: 255 }
}

/// Every sample replaced by its opaque gray luminance.
pub open spec fn grayed(p: Seq<ColorRgba>) -> Seq<ColorRgba> {
    Seq::new(p.len(), |i: int| gray_px(luma_of(flat_of(p))[i]))
}

/// The tone and geometry adjustments one request can ask for; an absent
/// field skips its step entirely, a present one runs it, even with a
/// neutral value.
#[derive(Debug, Clone, Copy)]
pub struct ImageParameters {
    pub brighten: Option<i32>,
    pub hue: Option<i32>,
    pub blur: Option<u32>,
    pub constrast: Option<i32>,
    pub grayscale: Option<bool>,
    pub invert: Option<bool>,
}

/// The grid after running the requested adjustment steps in the fixed
/// order brighten, blur, hue, grayscale, contrast, invert. The blur
/// step smooths with a median window of the given radius, not a
/// Gaussian kernel: a Gaussian takes a floating-point sigma, which this
/// library does not hold.
pub open spec fn apply_adjustments(params: ImageParameters, g: GridView) -> GridView {
    let p1 = match params.brighten {
        Some(d) => brightened(g.pixels, d as int),
        None => g.pixels,
    };
    let p2 = match params.blur {
        Some(r) => colors_of(median_blurred_of(g.width, g.height, flat_of(p1), r)),
        None => p1,
    };
    let p3 = match params.hue {
        Some(d) => colors_of(hue_rotated_of(flat_of(p2), d)),
        None => p2,
    };
    let p4 = if params.grayscale == Some(true) {
        grayed(p3)
    } else {
        p3
    };
    let p5 = match params.constrast {
        Some(d) => contrasted(p4, d as int),
        None => p4,
    };
    let p6 = if params.invert == Some(true) {
        inverted(p5)
    } else {
        p5
    };
    GridView { width: g.width, height: g.height, pixels: p6 }
}

/// The adjustment steps run in one fixed order, never the declaration
/// order: a set holding only grayscale and a contrast delta equals
/// contrast applied after grayscale, whatever the grid.
pub proof fn lemma_adjustment_order(params: ImageParameters, delta: i32, g: GridView)
    requires
        params.brighten is None,
        params.blur is None,
        params.hue is None,
        params.grayscale == Some(true),
        params.constrast == Some(delta),
        params.invert is None,
    ensures
        apply_adjustments(params, g) == (GridView {
            width: g.width,
            height: g.height,
            pixels: contrasted(grayed(g.pixels), delta as int),
        }),
{
}

/// A brighten delta of zero changes no sample.
pub proof fn lemma_brightened_zero(p: Seq<ColorRgba>)
    ensures
        brightened(p, 0) == p,
{
    assert forall|i: int| 0 <= i < p.len() implies brightened(p, 0)[i] == p[i] by {
        assert(clamp8(p[i].red + 0) == p[i].red);
        assert(clamp8(p[i].green + 0) == p[i].green);
        assert(clamp8(p[i].blue + 0) == p[i].blue);
    }
    assert(brightened(p, 0) =~= p);
}

/// Scaling by one hundred and truncating back is the identity.
proof fn lemma_div100_scale(k: int)
    ensures
        div100_trunc(k * 100) == k,
{
    if k >= 0 {
        vstd::arithmetic::div_mod::lemma_fundamental_div_mod_converse(k * 100, 100, k, 0);
    } else {
        assert(-(k * 100) == (-k) * 100);
        vstd::arithmetic::div_mod::lemma_fundamental_div_mod_converse((-k) * 100, 100, -k, 0);
    }
}

/// A contrast delta of zero changes no sample.
pub proof fn lemma_contrasted_zero(p: Seq<ColorRgba>)
    ensures
        contrasted(p, 0) == p,
{
    assert forall|i: int| 0 <= i < p.len() implies contrasted(p, 0)[i] == p[i] by {
        lemma_div100_scale(p[i].red - 128);
        lemma_div100_scale(p[i].green - 128);
        lemma_div100_scale(p[i].blue - 128);
        assert(clamp8(p[i].red - 128 + 128) == p[i].red);
        assert(clamp8(p[i].green - 128 + 128) == p[i].green);
        assert(clamp8(p[i].blue - 128 + 128) == p[i].blue);
    }
    assert(contrasted(p, 0) =~= p);
}

fn clamp8_exec(v: i64) -> (r: u8)
    ensures
        r == clamp8(v as int),
{
    if v < 0 {
        0
    } else if v > 255 {
        255
    } else {
        v as u8
    }
}

/// Brightens every sample of a grid by the delta, saturating.
pub fn brighten_grid(img: &PixelGrid, delta: i32) -> (r: PixelGrid)
    requires
        img@.wf(),
    ensures
        r@ == (GridView {
            width: img@.width,
            height: img@.height,
            pixels: brightened(img@.pixels, delta as int),
        }),
        r@.wf(),
{
    let src = img.pixels_ref();
    let n: usize = src.len();
    let mut out: Vec<ColorRgba> = Vec::new();
    let mut i: usize = 0;
    while i < n
        invariant
            i <= n,
            n == src@.len(),
            out@.len() == i,
            forall|j: int| 0 <= j < i ==> out@[j] == brightened(src@, delta as int)[j],
        decreases n - i,
    {
        let c: ColorRgba = src[i];
        out.push(
            ColorRgba {
                red: clamp8_exec(c.red as i64 + delta as i64),
                green: clamp8_exec(c.green as i64 + delta as i64),
                blue: clamp8_exec(c.blue as i64 + delta as i64),
                alpha: c.alpha,
            },
        );
        i = i + 1;
    }
    proof {
        assert(out@ =~= brightened(img@.pixels, delta as int));
        assert(img@.pixels.len() == img@.width * img@.height);
    }
    match PixelGrid::new(img.width(), img.height(), out) {
        Some(g) => g,
        None => vstd::pervasive::unreached(),
    }
}

fn div100_exec(num: i64) -> (r: i64)
    requires
        -0x4000_0000_0000 <= num <= 0x4000_0000_0000,
    ensures
        r == div100_trunc(num as int),
{
    if num >= 0 {
        num / 100
    } else {
        -((-num) / 100)
    }
}

/// Moves the contrast of every sample of a grid by the signed delta.
pub fn contrast_grid(img: &PixelGrid, delta: i32) -> (r: PixelGrid)
    requires
        img@.wf(),
    ensures
        r@ == (GridView {
            width: img@.width,
            height: img@.height,
            pixels: contrasted(img@.pixels, delta as int),
        }),
        r@.wf(),
{
    let f: i64 = if 100 + (delta as i64) < 0 {
        0
    } else {
        100 + (delta as i64)
    };
    let src = img.pixels_ref();
    let n: usize = src.len();
    let mut out: Vec<ColorRgba> = Vec::new();
    let mut i: usize = 0;
    while i < n
        invariant
            i <= n,
            n == src@.len(),
            out@.len() == i,
            f == (if 100 + (delta as int) < 0 {
                0
            } else {
                100 + (delta as int)
            }),
            0 <= f <= 0x8000_0064,
            forall|j: int| 0 <= j < i ==> out@[j] == contrasted(src@, delta as int)[j],
        decreases n - i,
    {
        let c: ColorRgba = src[i];
        proof {
            assert((c.red - 128) * f <= 128 * f && (c.red - 128) * f >= -128 * f)
                by (nonlinear_arith)
                requires
                    -128 <= c.red - 128 <= 128,
                    0 <= f,
            ;
            assert((c.green - 128) * f <= 128 * f && (c.green - 128) * f >= -128 * f)
                by (nonlinear_arith)
                requires
                    -128 <= c.green - 128 <= 128,
                    0 <= f,
            ;
            assert((c.blue - 128) * f <= 128 * f && (c.blue - 128) * f >= -128 * f)
                by (nonlinear_arith)
                requires
                    -128 <= c.blue - 128 <= 128,
                    0 <= f,
            ;
        }
        out.push(
            ColorRgba {
                red: clamp8_exec(div100_exec((c.red as i64 - 128) * f) + 128),
                green: clamp8_exec(div100_exec((c.green as i64 - 128) * f) + 128),
                blue: clamp8_exec(div100_exec((c.blue as i64 - 128) * f) + 128),
                alpha: c.alpha,
            },
        );
        i = i + 1;
    }
    proof {
        assert(out@ =~= contrasted(img@.pixels, delta as int));
        assert(img@.pixels.len() == img@.width * img@.height);
    }
    match PixelGrid::new(img.width(), img.height(), out) {
        Some(g) => g,
        None => vstd::pervasive::unreached(),
    }
}

/// Inverts every sample of a grid.
pub fn invert_grid(img: &PixelGrid) -> (r: PixelGrid)
    requires
        img@.wf(),
    ensures
        r@ == (GridView {
            width: img@.width,
            height: img@.height,
            pixels: inverted(img@.pixels),
        }),
        r@.wf(),
{
    let src = img.pixels_ref();
    let n: usize = src.len();
    let mut out: Vec<ColorRgba> = Vec::new();
    let mut i: usize = 0;
    while i < n
        invariant
            i <= n,
            n == src@.len(),
            out@.len() == i,
            forall|j: int| 0 <= j < i ==> out@[j] == inverted(src@)[j],
        decreases n - i,
    {
        let c: ColorRgba = src[i];
        out.push(
            ColorRgba {
                red: 255 - c.red,
                green: 255 - c.green,
                blue: 255 - c.blue,
                alpha: c.alpha,
            },
        );
        i = i + 1;
    }
    proof {
        assert(out@ =~= inverted(img@.pixels));
        assert(img@.pixels.len() == img@.width * img@.height);
    }
    match PixelGrid::new(img.width(), img.height(), out) {
        Some(g) => g,
        None => vstd::pervasive::unreached(),
    }
}

/// Replaces every sample of a grid by its opaque gray luminance.
pub fn grayscale_grid(img: &PixelGrid) -> (r: PixelGrid)
    requires
        img@.wf(),
    ensures
        r@ == (GridView { width: img@.width, height: img@.height, pixels: grayed(img@.pixels) }),
        r@.wf(),
{
    let w: u32 = img.width();
    let h: u32 = img.height();
    let flat = img.raw_bytes();
    proof {
        assert(img@.pixels.len() == img@.width * img@.height);
        assert(4 * (w as int) * (h as int) == 4 * ((w as int) * (h as int))) by (nonlinear_arith);
    }
    let lum = codec::luma_exec(w, h, &flat);
    proof {
        lemma_len_quarter(flat@.len() as int, (w as int) * (h as int));
    }
    let n: usize = lum.len();
    let mut out: Vec<ColorRgba> = Vec::new();
    let mut i: usize = 0;
    while i < n
        invariant
            i <= n,
            n == lum@.len(),
            out@.len() == i,
            forall|j: int| 0 <= j < i ==> out@[j] == gray_px(lum@[j]),
        decreases n - i,
    {
        let l: u8 = lum[i];
        out.push(ColorRgba { red: l, green: l, blue: l, alpha: 255 });
        i = i + 1;
    }
    proof {
        assert(out@ =~= grayed(img@.pixels));
    }
    match PixelGrid::new(w, h, out) {
        Some(g) => g,
        None => vstd::pervasive::unreached(),
    }
}

/// Rotates the hue of every sample of a grid by the given degrees; a
/// zero rotation changes no sample.
pub fn hue_grid(img: &PixelGrid, degrees: i32) -> (r: PixelGrid)
    requires
        img@.wf(),
    ensures
        r@ == (GridView {
            width: img@.width,
            height: img@.height,
            pixels: colors_of(hue_rotated_of(flat_of(img@.pixels), degrees)),
        }),
        r@.wf(),
        degrees == 0 ==> r@ == img@,
{
    let w: u32 = img.width();
    let h: u32 = img.height();
    let flat = img.raw_bytes();
    proof {
        assert(img@.pixels.len() == img@.width * img@.height);
        assert(4 * (w as int) * (h as int) == 4 * ((w as int) * (h as int))) by (nonlinear_arith);
    }
    let rot = codec::huerotate_exec(w, h, &flat, degrees);
    proof {
        lemma_len_quarter(rot@.len() as int, (w as int) * (h as int));
        if degrees == 0 {
            lemma_colors_of_flat(img@.pixels);
        }
    }
    let out = bytes_to_colors(&rot);
    match PixelGrid::new(w, h, out) {
        Some(g) => {
            proof {
                if degrees == 0 {
                    assert(g@ =~= img@);
                }
            }
            g
        },
        None => vstd::pervasive::unreached(),
    }
}

/// Smooths every sample of a grid with a median window of the given
/// radius; a zero radius changes no sample.
pub fn blur_grid(img: &PixelGrid, radius: u32) -> (r: PixelGrid)
    requires
        img@.wf(),
        radius <= 0x3fff,
    ensures
        r@ == (GridView {
            width: img@.width,
            height: img@.height,
            pixels: colors_of(median_blurred_of(img@.width, img@.height, flat_of(img@.pixels), radius)),
        }),
        r@.wf(),
        radius == 0 ==> r@ == img@,
{
    let w: u32 = img.width();
    let h: u32 = img.height();
    let flat = img.raw_bytes();
    proof {
        assert(img@.pixels.len() == img@.width * img@.height);
        assert(4 * (w as int) * (h as int) == 4 * ((w as int) * (h as int))) by (nonlinear_arith);
    }
    let blurred = codec::median_blur_exec(w, h, &flat, radius);
    proof {
        lemma_len_quarter(blurred@.len() as int, (w as int) * (h as int));
        if radius == 0 {
            lemma_colors_of_flat(img@.pixels);
        }
    }
    let out = bytes_to_colors(&blurred);
    match PixelGrid::new(w, h, out) {
        Some(g) => {
            proof {
                if radius == 0 {
                    assert(g@ =~= img@);
                }
            }
            g
        },
        None => vstd::pervasive::unreached(),
    }
}

impl ImageParameters {
    pub fn new() -> (r: ImageParameters)
        ensures
            r == ImageParameters::default_spec(),
    {
        ImageParameters::default()
    }

    /// The neutral configuration: every step present with a value that
    /// changes no pixel tone on its own.
    pub open spec fn default_spec() -> ImageParameters {
        ImageParameters {
            brighten: Some(0i32),
            hue: Some(0i32),
            blur: Some(0u32),
            constrast: Some(0i32),
            grayscale: Some(false),
            invert: Some(false),
        }
    }

    pub fn default() -> (r: Self)
        ensures
            r == ImageParameters::default_spec(),
    {
        Self {
            brighten: Some(0),
            blur: Some(0),
            hue: Some(0),
            constrast: Some(0),
            grayscale: Some(false),
            invert: Some(false),
        }
    }

    /// Performs the requested adjustments on a grid, in the fixed order
    /// brighten, blur, hue, grayscale, contrast, invert. The neutral
    /// configuration runs every step and changes no sample.
    pub fn apply_filter(&self, img: PixelGrid) -> (r: PixelGrid)
        requires
            img@.wf(),
            self.blur matches Some(b) ==> b <= 0x3fff,
        ensures
            r@ == apply_adjustments(*self, img@),
            r@.wf(),
            *self == ImageParameters::default_spec() ==> r@ == img@,
    {
        let mut cur: PixelGrid = img;
        if let Some(d) = self.brighten {
            cur = brighten_grid(&cur, d);
        }
        if let Some(b) = self.blur {
            cur = blur_grid(&cur, b);
        }
        if let Some(d) = self.hue {
            cur = hue_grid(&cur, d);
        }
        if let Some(gs) = self.grayscale {
            if gs {
                cur = grayscale_grid(&cur);
            }
        }
        if let Some(d) = self.constrast {
            cur = contrast_grid(&cur, d);
        }
        let inv = match self.invert {
            Some(b) => b,
            None => false,
        };
        if inv {
            cur = invert_grid(&cur);
        }
        proof {
            assert(cur@ =~= apply_adjustments(*self, img@));
            if *self == ImageParameters::default_spec() {
                lemma_brightened_zero(img@.pixels);
                lemma_contrasted_zero(img@.pixels);
                assert(cur@ =~= img@);
            }
        }
        cur
    }
}

/// The fixed marker a data URI for the canonical container carries in
/// front of its base64 payload.
pub open spec fn data_uri_prefix() -> Seq<char> {
    "data:image/png;base64,"@
}

/// The text with the data-URI marker stripped when it is there; any
/// other text is left untouched.
pub open spec fn strip_data_uri(s: Seq<char>) -> Seq<char> {
    if s.len() >= data_uri_prefix().len() && s.subrange(0, data_uri_prefix().len() as int)
        == data_uri_prefix() {
        s.subrange(data_uri_prefix().len() as int, s.len() as int)
    } else {
        s
    }
}

/// How many padding characters end a base64 text: 2 for '==', 1 for a
/// single '=', else 0.
pub open spec fn b64_padding(s: Seq<char>) -> int {
    if s.len() >= 2 && s[s.len() - 1] == '=' && s[s.len() - 2] == '=' {
        2
    } else if s.len() >= 1 && s[s.len() - 1] == '=' {
        1
    } else {
        0
    }
}

/// The approximate decoded byte count of a base64 text of length L with
/// padding p: floor(L * 3 / 4) - p, floored at zero.
pub open spec fn est_of(s: Seq<char>) -> int {
    let raw = (3 * s.len()) / 4 - b64_padding(s);
    if raw >= 0 {
        raw
    } else {
        0
    }
}

/// Text made only of base64 characters never starts with the data-URI
/// marker, so stripping leaves it untouched.
pub proof fn lemma_strip_base64_identity(s: Seq<char>)
    requires
        forall|i: int| 0 <= i < s.len() ==> is_base64_char(#[trigger] s[i]),
    ensures
        strip_data_uri(s) == s,
{
    reveal_strlit("data:image/png;base64,");
    if s.len() >= data_uri_prefix().len() && s.subrange(0, data_uri_prefix().len() as int)
        == data_uri_prefix() {
        assert(s.subrange(0, 22)[4] == s[4]);
        assert(data_uri_prefix()[4] == ':');
        assert(is_base64_char(s[4]));
        assert(false);
    }
}

/// The grid a decoded triple of dimensions and flat samples stands for.
pub open spec fn grid_of(t: (nat, nat, Seq<u8>)) -> GridView {
    GridView { width: t.0, height: t.1, pixels: colors_of(t.2) }
}

/// The canonical encoding of a grid, as the facade operations return it.
pub open spec fn encoded(g: GridView) -> Seq<u8> {
    png_encode(g.width, g.height, flat_of(g.pixels))
}

/// An encoding an operation can take its input from: raw bytes, base64
/// text, or an earlier operation's result.
pub trait InputType {
    /// The bytes this input stands for, when they can be recovered.
    spec fn byte_view(&self) -> Option<Seq<u8>>;

    /// Converts the input into the raw bytes it stands for.
    fn to_byte(&self) -> (r: Result<Vec<u8>, ErrorCode>)
        ensures
            r matches Ok(v) ==> self.byte_view() == Some(v@),
            r matches Err(e) ==> (self.byte_view() is None && e == ErrorCode::UnableToDecode),
    ;
}

impl InputType for String {
    open spec fn byte_view(&self) -> Option<Seq<u8>> {
        b64_decode(strip_data_uri(self@))
    }

    fn to_byte(&self) -> (r: Result<Vec<u8>, ErrorCode>) {
        let clean = ImageProcess::parse_base64_input_if_needed(self);
        codec::b64_decode_exec(clean.as_str())
    }
}

impl InputType for Vec<u8> {
    open spec fn byte_view(&self) -> Option<Seq<u8>> {
        Some(self@)
    }

    fn to_byte(&self) -> (r: Result<Vec<u8>, ErrorCode>) {
        Ok(vstd::slice::slice_to_vec(self.as_slice()))
    }
}

impl InputType for ImageProcessingResult {
    open spec fn byte_view(&self) -> Option<Seq<u8>> {
        Some(self@)
    }

    fn to_byte(&self) -> (r: Result<Vec<u8>, ErrorCode>) {
        Ok(self.to_byte())
    }
}

/// The orchestration object: holds one encoded input image and exposes
/// one operation per feature, each decoding afresh, transforming, and
/// re-encoding, never mutating the held input.
#[derive(Debug)]
pub struct ImageProcess {
    pub input: Vec<u8>,
}

impl View for ImageProcess {
    type V = Seq<u8>;

    open spec fn view(&self) -> Seq<u8> {
        self.input@
    }
}

impl ImageProcess {
    pub fn new<T: InputType>(input: T) -> (r: Result<ImageProcess, ErrorCode>)
        ensures
            r matches Ok(ip) ==> input.byte_view() == Some(ip@),
            r matches Err(e) ==> (input.byte_view() is None && e == ErrorCode::UnableToDecode),
    {
        match input.to_byte() {
            Ok(b) => Ok(ImageProcess { input: b }),
            Err(e) => Err(e),
        }
    }

    /// Strips the fixed data-URI marker off base64 text when it is
    /// there; text without the marker passes through untouched.
    pub fn parse_base64_input_if_needed(base64_input: &String) -> (r: String)
        ensures
            r@ == strip_data_uri(base64_input@),
    {
        let prefix: &str = "data:image/png;base64,";
        proof {
            reveal_strlit("data:image/png;base64,");
        }
        let n: usize = base64_input.as_str().unicode_len();
        if n >= 22 {
            let head: &str = base64_input.as_str().substring_char(0, 22);
            if String::from_str(head) == String::from_str(prefix) {
                let tail: &str = base64_input.as_str().substring_char(22, n);
                return String::from_str(tail);
            }
        }
        String::from_str(base64_input.as_str())
    }

    /// The held input as raw bytes.
    pub fn as_byte(&self) -> (r: Vec<u8>)
        ensures
            r@ == self@,
    {
        vstd::slice::slice_to_vec(self.input.as_slice())
    }

    /// The held input as base64 text; decoding the text gives the held
    /// bytes back.
    pub fn to_base64(&self) -> (r: String)
        ensures
            r@ == b64_encode(self@),
            r@.len() == 4 * ((self@.len() + 2) / 3),
            forall|i: int| 0 <= i < r@.len() ==> is_base64_char(#[trigger] r@[i]),
            b64_decode(r@) == Some(self@),
    {
        codec::b64_encode_exec(&self.input)
    }

    /// Decodes the held input afresh into a pixel grid.
    fn decode_grid(&self) -> (r: Result<PixelGrid, ErrorCode>)
        ensures
            r matches Ok(g) ==> g@.wf() && png_decode(self@) == Some(
                (g@.width, g@.height, flat_of(g@.pixels)),
            ) && grid_of((g@.width, g@.height, flat_of(g@.pixels))) == g@,
            r matches Err(e) ==> (!grid_decodable(self@) && e == ErrorCode::UnableToDecode),
    {
        let r = codec::decode(&self.input);
        proof {
            if r is Ok {
                let g = r->Ok_0;
                lemma_colors_of_flat(g@.pixels);
                assert(grid_of((g@.width, g@.height, flat_of(g@.pixels))) =~= g@);
            }
        }
        r
    }

    /// The dimensions of the held image.
    pub fn get_image_dimension(&self) -> (r: Result<ImageDimension, ErrorCode>)
        ensures
            r matches Ok(d) ==> (png_decode(self@) matches Some(t) && d.width == t.0 && d.height
                == t.1),
            r matches Err(e) ==> (!grid_decodable(self@) && e == ErrorCode::UnableToDecode),
    {
        match self.decode_grid() {
            Ok(g) => Ok(ImageDimension::new(g.width(), g.height())),
            Err(e) => Err(e),
        }
    }

    /// Runs the adjustment pipeline on the held image and re-encodes
    /// the outcome.
    pub fn compute_parameters(&self, params: ImageParameters) -> (r: Result<
        ImageProcessingResult,
        ErrorCode,
    >)
        requires
            params.blur matches Some(b) ==> b <= 0x3fff,
        ensures
            r is Ok <==> grid_decodable(self@),
            r matches Ok(res) ==> (png_decode(self@) matches Some(t) && res@ == encoded(
                apply_adjustments(params, grid_of(t)),
            )),
            r matches Err(e) ==> e == ErrorCode::UnableToDecode,
    {
        let img = match self.decode_grid() {
            Ok(g) => g,
            Err(e) => {
                return Err(e);
            },
        };
        let out = params.apply_filter(img);
        let bytes = codec::encode(&out);
        Ok(ImageProcessingResult::new(bytes))
    }

    /// Replaces the held image by its edge-magnitude map and re-encodes
    /// it.
    pub fn compute_filter_sobel(&self) -> (r: Result<ImageProcessingResult, ErrorCode>)
        ensures
            r is Ok <==> grid_decodable(self@),
            r matches Ok(res) ==> (png_decode(self@) matches Some(t) && res@ == encoded(
                sobel_filtered(grid_of(t)),
            )),
            r matches Err(e) ==> e == ErrorCode::UnableToDecode,
    {
        let img = match self.decode_grid() {
            Ok(g) => g,
            Err(e) => {
                return Err(e);
            },
        };
        let out = match filter_sobel(&img) {
            Ok(g) => g,
            Err(_) => vstd::pervasive::unreached(),
        };
        let bytes = codec::encode(&out);
        Ok(ImageProcessingResult::new(bytes))
    }

    /// Paints equal bands of the supplied colors over the held image
    /// and re-encodes it; an empty color list changes no pixel.
    pub fn compute_filter_band_color(
        &self,
        colors: Vec<ColorRgba>,
        direction: GradientDirection,
    ) -> (r: Result<ImageProcessingResult, ErrorCode>)
        ensures
            r is Ok <==> grid_decodable(self@),
            r matches Ok(res) ==> (png_decode(self@) matches Some(t) && (colors@.len() == 0
                ==> res@ == encoded(grid_of(t))) && (colors@.len() >= 1 ==> res@ == encoded(
                band_filtered(grid_of(t), colors@, direction),
            ))),
            r matches Err(e) ==> e == ErrorCode::UnableToDecode,
    {
        let img = match self.decode_grid() {
            Ok(g) => g,
            Err(e) => {
                return Err(e);
            },
        };
        let out = match filter_band_color(&img, colors, direction) {
            Ok(g) => g,
            Err(_) => vstd::pervasive::unreached(),
        };
        let bytes = codec::encode(&out);
        Ok(ImageProcessingResult::new(bytes))
    }

    /// Blends a two-color linear gradient over the held image and
    /// re-encodes it.
    pub fn compute_filter_gradient(
        &self,
        start: ColorRgba,
        to: ColorRgba,
        gradient: GradientDirection,
    ) -> (r: Result<ImageProcessingResult, ErrorCode>)
        ensures
            r is Ok <==> grid_decodable(self@),
            r matches Ok(res) ==> (png_decode(self@) matches Some(t) && res@ == encoded(
                gradient_filtered(grid_of(t), start, to, gradient),
            )),
            r matches Err(e) ==> e == ErrorCode::UnableToDecode,
    {
        let img = match self.decode_grid() {
            Ok(g) => g,
            Err(e) => {
                return Err(e);
            },
        };
        let out = match filter_gradient(&img, start, to, gradient) {
            Ok(g) => g,
            Err(_) => vstd::pervasive::unreached(),
        };
        let bytes = codec::encode(&out);
        Ok(ImageProcessingResult::new(bytes))
    }

    /// Overlays a coordinate mask of the given color on the held image
    /// and re-encodes it; only the vertical stripe rule is implemented.
    pub fn compute_filter_pixel(&self, pixel_filter: FilterPixelType, color: ColorRgba) -> (r:
        Result<ImageProcessingResult, ErrorCode>)
        ensures
            !grid_decodable(self@) ==> (r matches Err(e) && e == ErrorCode::UnableToDecode),
            grid_decodable(self@) && !(pixel_filter is VERTICAL) ==> (r matches Err(e) && e
                == ErrorCode::NotImplemented),
            pixel_filter is VERTICAL && grid_decodable(self@) ==> (png_decode(self@)
                matches Some(t) ==> (r matches Ok(res) && res@ == encoded(
                mask_filtered(grid_of(t), color),
            ))),
    {
        let img = match self.decode_grid() {
            Ok(g) => g,
            Err(e) => {
                return Err(e);
            },
        };
        let out = match filter_pixel(&img, pixel_filter, color) {
            Ok(g) => g,
            Err(e) => {
                return Err(e);
            },
        };
        let bytes = codec::encode(&out);
        Ok(ImageProcessingResult::new(bytes))
    }

    /// Resamples the held image to fit within the requested bounds,
    /// keeping its aspect ratio, and re-encodes it.
    pub fn resize(&self, width: u32, height: u32) -> (r: Result<ImageProcessingResult, ErrorCode>)
        requires
            1 <= width <= 0x7fff_ffff,
            1 <= height <= 0x7fff_ffff,
            4 * width * height <= 0x2000_0000,
        ensures
            r is Ok <==> grid_decodable(self@),
            r matches Ok(res) ==> (png_decode(self@) matches Some(t) && (png_decode(res@)
                matches Some(t2) && t2.2 == resized_of(t.0, t.1, t.2, width as nat, height as nat)
                && 1 <= t2.0 <= width && 1 <= t2.1 <= height)),
            r matches Err(e) ==> e == ErrorCode::UnableToDecode,
    {
        let img = match self.decode_grid() {
            Ok(g) => g,
            Err(e) => {
                return Err(e);
            },
        };
        let flat = img.raw_bytes();
        proof {
            assert(img@.pixels.len() == img@.width * img@.height);
            assert(4 * (img@.width * img@.height) == 4 * img@.width * img@.height)
                by (nonlinear_arith);
        }
        let (rw, rh, rp) = codec::resize_exec(img.width(), img.height(), &flat, width, height);
        proof {
            assert(4 * (rw as int) * (rh as int) <= 4 * (width as int) * (height as int))
                by (nonlinear_arith)
                requires
                    0 <= rw <= width,
                    0 <= rh <= height,
            ;
        }
        let bytes = codec::png_encode_exec(rw, rh, &rp);
        Ok(ImageProcessingResult::new(bytes))
    }

    /// The approximate byte count of the image a base64 text holds,
    /// floor(length * 3 / 4) minus the padding, computed without
    /// decoding; an empty text has no image in it.
    pub fn get_image_weight_byte(base64_input: String) -> (r: Result<usize, ErrorCode>)
        ensures
            r matches Ok(sz) ==> strip_data_uri(base64_input@).len() > 0 && sz == est_of(
                strip_data_uri(base64_input@),
            ),
            r matches Err(e) ==> (strip_data_uri(base64_input@).len() == 0 && e
                == ErrorCode::ImageEmpty),
    {
        let clean: String = Self::parse_base64_input_if_needed(&base64_input);
        let n: usize = clean.as_str().unicode_len();
        if n == 0 {
            return Err(ErrorCode::ImageEmpty);
        }
        let last: char = clean.as_str().get_char(n - 1);
        let pad: usize = if n >= 2 && last == '=' && clean.as_str().get_char(n - 2) == '=' {
            2
        } else if last == '=' {
            1
        } else {
            0
        };
        let size128: u128 = (3u128 * (n as u128)) / 4;
        proof {
            lemma_div_is_ordered(3 * (n as int), 3 * (usize::MAX as int), 4);
        }
        let size: usize = size128 as usize;
        let est: usize = if size >= pad {
            size - pad
        } else {
            0
        };
        Ok(est)
    }

    /// Repeatedly shrinks the image a base64 text holds by ten percent
    /// a side until its estimated size fits the target, then re-encodes
    /// what is left; an image that would vanish before fitting fails
    /// with BudgetUnreachable. An input already within the target is
    /// returned unchanged but for the re-encoding, and the result never
    /// outgrows the input in either dimension.
    pub fn calc_best_size_ratio(base64_input: String, target_size: usize) -> (r: Result<
        ImageProcessingResult,
        ErrorCode,
    >)
        ensures
            r matches Ok(res) ==> png_decode(res@) is Some,
            r matches Ok(res) ==> (b64_decode(strip_data_uri(base64_input@)) matches Some(b)
                && png_decode(b) matches Some(t) && (est_of(strip_data_uri(b64_encode(b)))
                <= target_size ==> res@ == encoded(grid_of(t))) && (est_of(
                strip_data_uri(b64_encode(b)),
            ) > target_size ==> est_of(strip_data_uri(b64_encode(res@))) <= target_size) && (
            png_decode(res@) matches Some(t2) && t2.0 <= t.0 && t2.1 <= t.1)),
            r matches Err(e) ==> ({
                let ob = b64_decode(strip_data_uri(base64_input@));
                &&& (e == ErrorCode::UnableToDecode || e == ErrorCode::ImageEmpty || e
                    == ErrorCode::BudgetUnreachable)
                &&& (e == ErrorCode::UnableToDecode ==> (ob is None || (ob matches Some(b)
                    && !grid_decodable(b))))
                &&& (e == ErrorCode::ImageEmpty ==> ob == Some(Seq::<u8>::empty()))
                &&& (e == ErrorCode::BudgetUnreachable ==> (ob matches Some(b)
                    && grid_decodable(b) && est_of(strip_data_uri(b64_encode(b)))
                    > target_size))
            }),
    {
        let ghost orig: Seq<char> = base64_input@;
        let mut img: ImageProcess = match ImageProcess::new(base64_input) {
            Ok(p) => p,
            Err(e) => {
                return Err(e);
            },
        };
        let ghost b0: Seq<u8> = img@;
        let s0 = img.to_base64();
        let mut image_size: usize = match Self::get_image_weight_byte(s0) {
            Ok(s) => s,
            Err(e) => {
                proof {
                    lemma_strip_base64_identity(b64_encode(b0));
                    if b0.len() >= 1 {
                        lemma_div_is_ordered(3, b0.len() as int + 2, 3);
                    }
                    assert(b0 =~= Seq::<u8>::empty());
                }
                return Err(e);
            },
        };
        proof {
            lemma_strip_base64_identity(b64_encode(b0));
        }
        while image_size > target_size
            invariant
                orig == base64_input@,
                b64_decode(strip_data_uri(orig)) == Some(b0),
                image_size == est_of(strip_data_uri(b64_encode(img@))),
                img@ == b0 || (grid_decodable(b0) && est_of(strip_data_uri(b64_encode(b0)))
                    > target_size),
                img@ == b0 || (png_decode(b0) matches Some(t0) && png_decode(img@)
                    matches Some(t) && img@ == png_encode(t.0, t.1, t.2) && grid_decodable(img@)
                    && t.0 <= t0.0 && t.1 <= t0.1),
            decreases (match png_decode(img@) {
                Some(t) => (t.0 + t.1) as int,
                None => 0int,
            }),
        {
            let g = match img.decode_grid() {
                Ok(g) => g,
                Err(e) => {
                    return Err(e);
                },
            };
            let w: u32 = g.width();
            let h: u32 = g.height();
            let nw64: u64 = (w as u64) * 90 / 100;
            let nh64: u64 = (h as u64) * 90 / 100;
            proof {
                assert(90 * (w as int) < 100 * (w as int));
                vstd::arithmetic::div_mod::lemma_multiply_divide_lt(
                    90 * (w as int),
                    100,
                    w as int,
                );
                assert(90 * (h as int) < 100 * (h as int));
                vstd::arithmetic::div_mod::lemma_multiply_divide_lt(
                    90 * (h as int),
                    100,
                    h as int,
                );
            }
            let nw: u32 = nw64 as u32;
            let nh: u32 = nh64 as u32;
            if nw == 0 || nh == 0 {
                return Err(ErrorCode::BudgetUnreachable);
            }
            let flat = g.raw_bytes();
            proof {
                assert(g@.pixels.len() == g@.width * g@.height);
                assert(4 * (g@.width * g@.height) == 4 * g@.width * g@.height)
                    by (nonlinear_arith);
            }
            let (rw, rh, rp) = codec::resize_exec(w, h, &flat, nw, nh);
            proof {
                assert(4 * (rw as int) * (rh as int) <= 4 * (g@.width as int) * (g@.height as int))
                    by (nonlinear_arith)
                    requires
                        0 <= rw <= g@.width,
                        0 <= rh <= g@.height,
                ;
            }
            let newbytes = codec::png_encode_exec(rw, rh, &rp);
            proof {
                assert(4 * (rw as int) * (rh as int) == 4 * ((rw as int) * (rh as int)))
                    by (nonlinear_arith);
                lemma_len_quarter(rp@.len() as int, (rw as int) * (rh as int));
                assert(grid_decodable(newbytes@));
            }
            let result = ImageProcessingResult::new(newbytes);
            img = match ImageProcess::new(result) {
                Ok(p) => p,
                Err(_) => vstd::pervasive::unreached(),
            };
            let s = img.to_base64();
            proof {
                lemma_strip_base64_identity(b64_encode(img@));
                lemma_div_is_ordered(3, img@.len() as int + 2, 3);
            }
            image_size = match Self::get_image_weight_byte(s) {
                Ok(s) => s,
                Err(_) => vstd::pervasive::unreached(),
            };
        }
        let g = match img.decode_grid() {
            Ok(g) => g,
            Err(e) => {
                return Err(e);
            },
        };
        let out_bytes = codec::encode(&g);
        proof {
            if img@ != b0 {
                assert(out_bytes@ == img@);
            }
        }
        Ok(ImageProcessingResult::new(out_bytes))
    }
}

} // verus!
