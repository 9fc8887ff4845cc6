use vstd::prelude::*;

verus! {

/// An explicit 4-tuple of 8-bit channel samples. Value type, no identity.
#[derive(Debug, Clone, Copy, PartialEq, Eq, Structural)]
pub struct ColorRgba {
    pub red: u8,
    pub green: u8,
    pub blue: u8,
    pub alpha: u8,
}

impl ColorRgba {
    pub fn new(red: u8, green: u8, blue: u8, alpha: u8) -> (r: Self)
        ensures
            r == (ColorRgba { red, green, blue, alpha }),
    {
        Self { red, green, blue, alpha }
    }
}

/// The mathematical model of a decoded image: a width x height grid of
/// RGBA samples, stored row by row.
#[verifier::ext_equal]
pub ghost struct GridView {
    pub width: nat,
    pub height: nat,
    pub pixels: Seq<ColorRgba>,
}

impl GridView {
    /// A grid is well formed when it has at least one pixel in each
    /// direction, holds exactly width * height samples, and its flat
    /// 4-bytes-per-pixel form stays within the 512 MiB allocation that
    /// decoding with default limits accepts, so a canonical encoding of
    /// the grid can always be decoded again.
    pub open spec fn wf(self) -> bool {
        &&& self.pixels.len() == self.width * self.height
        &&& 1 <= self.width <= 0x7fff_ffff
        &&& 1 <= self.height <= 0x7fff_ffff
        &&& 4 * self.width * self.height <= 0x2000_0000
    }

    /// The sample at column x of row y.
    pub open spec fn pix(self, x: int, y: int) -> ColorRgba {
        self.pixels[y * self.width + x]
    }
}

/// A decoded width x height grid of 4-channel 8-bit samples.
pub struct PixelGrid {
    width: u32,
    height: u32,
    pixels: Vec<ColorRgba>,
}

impl View for PixelGrid {
    type V = GridView;

    closed spec fn view(&self) -> GridView {
        GridView { width: self.width as nat, height: self.height as nat, pixels: self.pixels@ }
    }
}

/// The product of two 32-bit dimensions always fits in 64 bits.
proof fn lemma_u32_mul_fits(w: u32, h: u32)
    ensures
        (w as int) * (h as int) <= 0xffff_ffff * 0xffff_ffff,
        0 <= (w as int) * (h as int),
{
    assert((w as int) * (h as int) <= 0xffff_ffff * 0xffff_ffff && 0 <= (w as int) * (h as int))
        by (nonlinear_arith)
        requires
            0 <= w <= 0xffff_ffffu64,
            0 <= h <= 0xffff_ffffu64,
    ;
}

/// The dimensions and sample count a grid constructor accepts: at least
/// one pixel each way, dimensions the canonical container can hold, and
/// exactly one sample per pixel.
pub open spec fn valid_dims(w: nat, h: nat, n: nat) -> bool {
    &&& 1 <= w <= 0x7fff_ffff
    &&& 1 <= h <= 0x7fff_ffff
    &&& n == w * h
    &&& 4 * w * h <= 0x2000_0000
}

impl PixelGrid {
    pub fn width(&self) -> (r: u32)
        ensures
            r == self@.width,
    {
        self.width
    }

    pub fn height(&self) -> (r: u32)
        ensures
            r == self@.height,
    {
        self.height
    }

    /// Builds a grid from explicit samples; refuses empty dimensions and
    /// sample vectors of the wrong length.
    pub fn new(width: u32, height: u32, pixels: Vec<ColorRgba>) -> (r: Option<PixelGrid>)
        ensures
            r is Some <==> valid_dims(width as nat, height as nat, pixels@.len()),
            r matches Some(g) ==> g@ == (GridView {
                width: width as nat,
                height: height as nat,
                pixels: pixels@,
            }) && g@.wf(),
    {
        if width >= 1 && height >= 1 && width <= 0x7fff_ffff && height <= 0x7fff_ffff {
            proof {
                lemma_u32_mul_fits(width, height);
            }
            let need: u64 = (width as u64) * (height as u64);
            if (pixels.len() as u64) == need && need <= 0x800_0000u64 {
                proof {
                    assert(4 * (width as nat) * (height as nat) <= 0x2000_0000) by (nonlinear_arith)
                        requires
                            (width as nat) * (height as nat) <= 0x800_0000,
                    ;
                }
                return Some(PixelGrid { width, height, pixels });
            }
        }
        proof {
            if valid_dims(width as nat, height as nat, pixels@.len()) {
                assert((width as nat) * (height as nat) <= 0x800_0000) by (nonlinear_arith)
                    requires
                        4 * (width as nat) * (height as nat) <= 0x2000_0000,
                ;
            }
        }
        None
    }

    /// Builds a grid every sample of which is the given color.
    pub fn filled(width: u32, height: u32, color: ColorRgba) -> (r: Option<PixelGrid>)
        ensures
            r is Some <==> valid_dims(width as nat, height as nat, (width * height) as nat),
            r matches Some(g) ==> g@ == (GridView {
                width: width as nat,
                height: height as nat,
                pixels: Seq::new((width * height) as nat, |i: int| color),
            }) && g@.wf(),
    {
        if width >= 1 && height >= 1 && width <= 0x7fff_ffff && height <= 0x7fff_ffff {
            proof {
                lemma_u32_mul_fits(width, height);
            }
            let need: u64 = (width as u64) * (height as u64);
            if need <= 0x800_0000u64 {
                let n: usize = need as usize;
                let mut pixels: Vec<ColorRgba> = Vec::new();
                let mut i: usize = 0;
                while i < n
                    invariant
                        i <= n,
                        n == (width as nat) * (height as nat),
                        pixels@ =~= Seq::new(i as nat, |j: int| color),
                    decreases n - i,
                {
                    pixels.push(color);
                    i = i + 1;
                }
                proof {
                    assert(4 * (width as nat) * (height as nat) <= 0x2000_0000) by (nonlinear_arith)
                        requires
                            (width as nat) * (height as nat) <= 0x800_0000,
                    ;
                    assert(pixels@ =~= Seq::new((width * height) as nat, |i: int| color));
                }
                return Some(PixelGrid { width, height, pixels });
            }
        }
        proof {
            if valid_dims(width as nat, height as nat, (width * height) as nat) {
                assert((width as nat) * (height as nat) <= 0x800_0000) by (nonlinear_arith)
                    requires
                        4 * (width as nat) * (height as nat) <= 0x2000_0000,
                ;
            }
        }
        None
    }

    /// The sample at column x of row y.
    pub fn get_pixel(&self, x: u32, y: u32) -> (c: ColorRgba)
        requires
            self@.wf(),
            x < self@.width,
            y < self@.height,
        ensures
            c == self@.pix(x as int, y as int),
    {
        proof {
            assert((y as int) * (self@.width as int) + (x as int) < (self@.width as int) * (
            self@.height as int)) by (nonlinear_arith)
                requires
                    x < self@.width,
                    y < self@.height,
            ;
            assert(self@.pixels.len() == self@.width * self@.height);
        }
        let len: usize = self.pixels.len();
        let idx: usize = (y as usize) * (self.width as usize) + (x as usize);
        self.pixels[idx]
    }

    /// How many samples the grid holds.
    pub fn pixel_count(&self) -> (r: usize)
        ensures
            r == self@.pixels.len(),
    {
        self.pixels.len()
    }

    /// The grid's samples, row by row.
    pub fn pixels_ref(&self) -> (r: &Vec<ColorRgba>)
        ensures
            r@ == self@.pixels,
    {
        &self.pixels
    }

    /// An independent grid holding the same samples.
    pub fn duplicate(&self) -> (r: PixelGrid)
        ensures
            r@ == self@,
    {
        PixelGrid {
            width: self.width,
            height: self.height,
            pixels: vstd::slice::slice_to_vec(self.pixels.as_slice()),
        }
    }

    /// The samples flattened to 4 bytes per pixel, in channel order
    /// red, green, blue, alpha.
    pub fn raw_bytes(&self) -> (r: Vec<u8>)
        requires
            self@.wf(),
        ensures
            r@ == flat_of(self@.pixels),
    {
        proof {
            assert(4 * self@.pixels.len() <= usize::MAX) by (nonlinear_arith)
                requires
                    self@.pixels.len() == self@.width * self@.height,
                    4 * self@.width * self@.height <= 0x2000_0000,
            ;
        }
        colors_to_bytes(&self.pixels)
    }
}

/// The k-th channel of a sample, in the flat byte order.
pub open spec fn channel_of(c: ColorRgba, k: int) -> u8 {
    if k == 0 {
        c.red
    } else if k == 1 {
        c.green
    } else if k == 2 {
        c.blue
    } else {
        c.alpha
    }
}

/// A sample sequence flattened to 4 bytes per pixel.
pub open spec fn flat_of(s: Seq<ColorRgba>) -> Seq<u8> {
    Seq::new(4 * s.len(), |i: int| channel_of(s[i / 4], i % 4))
}

/// A flat byte sequence regrouped into samples, 4 bytes each.
pub open spec fn colors_of(b: Seq<u8>) -> Seq<ColorRgba> {
    Seq::new(b.len() / 4, |i: int| ColorRgba {
        red: b[4 * i],
        green: b[4 * i + 1],
        blue: b[4 * i + 2],
        alpha: b[4 * i + 3],
    })
}

/// Regrouping the flat form of a sample sequence gives the sequence back.
pub proof fn lemma_colors_of_flat(s: Seq<ColorRgba>)
    ensures
        colors_of(flat_of(s)) == s,
{
    assert((4 * s.len() as int) / 4 == s.len() as int) by (nonlinear_arith);
    assert forall|i: int| 0 <= i < s.len() implies colors_of(flat_of(s))[i] == s[i] by {
        assert((4 * i) / 4 == i && (4 * i) % 4 == 0) by (nonlinear_arith);
        assert((4 * i + 1) / 4 == i && (4 * i + 1) % 4 == 1) by (nonlinear_arith);
        assert((4 * i + 2) / 4 == i && (4 * i + 2) % 4 == 2) by (nonlinear_arith);
        assert((4 * i + 3) / 4 == i && (4 * i + 3) % 4 == 3) by (nonlinear_arith);
    }
    assert(colors_of(flat_of(s)) =~= s);
}

/// Flattening the regrouped form of a whole byte sequence gives it back.
pub proof fn lemma_flat_of_colors(b: Seq<u8>)
    requires
        b.len() % 4 == 0,
    ensures
        flat_of(colors_of(b)) == b,
{
    assert(4 * (b.len() as int / 4) == b.len() as int) by (nonlinear_arith)
        requires
            b.len() % 4 == 0,
    ;
    assert forall|i: int| 0 <= i < b.len() implies flat_of(colors_of(b))[i] == b[i] by {
        assert(4 * (i / 4) + i % 4 == i && 0 <= i % 4 < 4) by (nonlinear_arith)
            requires
                0 <= i,
        ;
        assert(0 <= i / 4 < b.len() / 4) by (nonlinear_arith)
            requires
                0 <= i < b.len(),
                b.len() % 4 == 0,
        ;
    }
    assert(flat_of(colors_of(b)) =~= b);
}

/// A length that is exactly four times k splits into quarters of k.
pub proof fn lemma_len_quarter(n: int, k: int)
    requires
        n == 4 * k,
        0 <= k,
    ensures
        n % 4 == 0,
        n / 4 == k,
{
    vstd::arithmetic::div_mod::lemma_fundamental_div_mod_converse(n, 4, k, 0);
}

/// Flattens samples to 4 bytes per pixel.
pub fn colors_to_bytes(v: &Vec<ColorRgba>) -> (r: Vec<u8>)
    requires
        4 * v@.len() <= usize::MAX,
    ensures
        r@ == flat_of(v@),
{
    let n: usize = v.len();
    let mut r: Vec<u8> = Vec::new();
    let mut i: usize = 0;
    while i < n
        invariant
            i <= n,
            n == v@.len(),
            4 * n <= usize::MAX,
            r@.len() == 4 * i,
            forall|j: int| 0 <= j < 4 * i ==> r@[j] == flat_of(v@)[j],
        decreases n - i,
    {
        let c: ColorRgba = v[i];
        r.push(c.red);
        r.push(c.green);
        r.push(c.blue);
        r.push(c.alpha);
        proof {
            assert forall|j: int| 4 * i <= j < 4 * (i + 1) implies r@[j] == flat_of(v@)[j] by {
                assert((4 * (i as int)) / 4 == i as int && (4 * (i as int)) % 4 == 0) by (nonlinear_arith);
                assert((4 * (i as int) + 1) / 4 == i as int && (4 * (i as int) + 1) % 4 == 1)
                    by (nonlinear_arith);
                assert((4 * (i as int) + 2) / 4 == i as int && (4 * (i as int) + 2) % 4 == 2)
                    by (nonlinear_arith);
                assert((4 * (i as int) + 3) / 4 == i as int && (4 * (i as int) + 3) % 4 == 3)
                    by (nonlinear_arith);
            }
        }
        i = i + 1;
    }
    proof {
        assert(r@ =~= flat_of(v@));
    }
    r
}

/// Regroups a flat byte vector into samples, 4 bytes each.
pub fn bytes_to_colors(b: &Vec<u8>) -> (r: Vec<ColorRgba>)
    requires
        b@.len() % 4 == 0,
    ensures
        r@ == colors_of(b@),
{
    let n: usize = b.len() / 4;
    proof {
        vstd::arithmetic::div_mod::lemma_fundamental_div_mod(b@.len() as int, 4);
    }
    let mut r: Vec<ColorRgba> = Vec::new();
    let mut i: usize = 0;
    while i < n
        invariant
            i <= n,
            n == b@.len() / 4,
            4 * n == b@.len(),
            b@.len() <= usize::MAX,
            r@.len() == i,
            forall|j: int| 0 <= j < i ==> r@[j] == colors_of(b@)[j],
        decreases n - i,
    {
        let base: usize = 4 * i;
        let c: ColorRgba = ColorRgba {
            red: b[base],
            green: b[base + 1],
            blue: b[base + 2],
            alpha: b[base + 3],
        };
        r.push(c);
        i = i + 1;
    }
    proof {
        assert(r@ =~= colors_of(b@));
    }
    r
}

/// One channel of the standard "over" blend: the overlay channel weighted
/// by its alpha, the source channel by the remainder.
pub open spec fn blend_channel(s: u8, o: u8, a: u8) -> u8 {
    (((o as int) * (a as int) + (s as int) * (255 - a as int)) / 255) as u8
}

/// The alpha of the standard "over" blend.
pub open spec fn blend_alpha(sa: u8, oa: u8) -> u8 {
    ((oa as int) + ((sa as int) * (255 - oa as int)) / 255) as u8
}

/// The standard "over" blend of an overlay sample onto a source sample:
/// a zero-alpha overlay leaves the source untouched, a full-alpha overlay
/// replaces it.
pub open spec fn blend_over(s: ColorRgba, o: ColorRgba) -> ColorRgba {
    ColorRgba {
        red: blend_channel(s.red, o.red, o.alpha),
        green: blend_channel(s.green, o.green, o.alpha),
        blue: blend_channel(s.blue, o.blue, o.alpha),
        alpha: blend_alpha(s.alpha, o.alpha),
    }
}

fn blend_channel_exec(s: u8, o: u8, a: u8) -> (r: u8)
    ensures
        r == blend_channel(s, o, a),
{
    proof {
        assert((o as int) * (a as int) + (s as int) * (255 - a as int) <= 255 * 255)
            by (nonlinear_arith)
            requires
                o <= 255,
                a <= 255,
                s <= 255,
        ;
        assert(0 <= (o as int) * (a as int)) by (nonlinear_arith);
        assert(0 <= (s as int) * (255 - a as int)) by (nonlinear_arith)
            requires
                a <= 255,
        ;
    }
    let num: u32 = (o as u32) * (a as u32) + (s as u32) * (255 - (a as u32));
    proof {
        vstd::arithmetic::div_mod::lemma_div_is_ordered(num as int, 255int * 255, 255);
    }
    (num / 255) as u8
}

fn blend_alpha_exec(sa: u8, oa: u8) -> (r: u8)
    ensures
        r == blend_alpha(sa, oa),
{
    proof {
        assert((sa as int) * (255 - oa as int) <= 255 * (255 - oa as int)) by (nonlinear_arith)
            requires
                sa <= 255,
                oa <= 255,
        ;
        assert(0 <= (sa as int) * (255 - oa as int)) by (nonlinear_arith)
            requires
                oa <= 255,
        ;
        vstd::arithmetic::div_mod::lemma_div_is_ordered(
            (sa as int) * (255 - oa as int),
            255 * (255 - oa as int),
            255,
        );
        assert(255 * (255 - oa as int) / 255 == 255 - oa as int) by (nonlinear_arith);
    }
    let num: u32 = (sa as u32) * (255 - (oa as u32));
    oa + ((num / 255) as u8)
}

/// Blends one overlay sample onto one source sample with the "over" rule.
pub fn blend_px(s: ColorRgba, o: ColorRgba) -> (r: ColorRgba)
    ensures
        r == blend_over(s, o),
{
    ColorRgba {
        red: blend_channel_exec(s.red, o.red, o.alpha),
        green: blend_channel_exec(s.green, o.green, o.alpha),
        blue: blend_channel_exec(s.blue, o.blue, o.alpha),
        alpha: blend_alpha_exec(s.alpha, o.alpha),
    }
}

/// A full-alpha overlay sample fully replaces the source sample.
pub proof fn lemma_blend_opaque(s: ColorRgba, o: ColorRgba)
    requires
        o.alpha == 255,
    ensures
        blend_over(s, o) == o,
{
    assert forall|sc: u8, oc: u8| true implies blend_channel(sc, oc, 255u8) == oc by {
        assert(((oc as int) * 255 + (sc as int) * 0) / 255 == oc as int) by (nonlinear_arith);
    }
    assert(blend_alpha(s.alpha, 255u8) == 255u8) by {
        assert((s.alpha as int) * (255 - 255) == 0) by (nonlinear_arith);
    }
}

/// A zero-alpha overlay sample leaves the source sample untouched.
pub proof fn lemma_blend_transparent(s: ColorRgba, o: ColorRgba)
    requires
        o.alpha == 0,
    ensures
        blend_over(s, o) == s,
{
    assert forall|sc: u8, oc: u8| true implies blend_channel(sc, oc, 0u8) == sc by {
        assert(((oc as int) * 0 + (sc as int) * 255) / 255 == sc as int) by (nonlinear_arith);
    }
    assert(blend_alpha(s.alpha, 0u8) == s.alpha) by {
        assert(((s.alpha as int) * 255) / 255 == s.alpha as int) by (nonlinear_arith);
    }
}

} // verus!
