use vstd::prelude::*;

use super::codec::hgradient_of;
use super::codec::horizontal_gradient_exec;
use super::codec::luma_exec;
use super::codec::luma_of;
use super::codec::sobel_exec;
use super::codec::sobel_of;
use super::codec::vertical_gradient_exec;
use super::codec::vgradient_of;
use super::image_error::ErrorCode;
use super::pixel_grid::ColorRgba;
use super::pixel_grid::GridView;
use super::pixel_grid::PixelGrid;
use super::pixel_grid::blend_over;
use super::pixel_grid::blend_px;
use super::pixel_grid::bytes_to_colors;
use super::pixel_grid::colors_of;
use super::pixel_grid::lemma_colors_of_flat;
use super::pixel_grid::flat_of;
use vstd::arithmetic::div_mod::lemma_fundamental_div_mod;
use vstd::arithmetic::div_mod::lemma_fundamental_div_mod_converse;
use vstd::arithmetic::div_mod::lemma_mod_pos_bound;
use vstd::arithmetic::div_mod::lemma_multiply_divide_lt;

verus! {

/// The coordinate predicates a masking filter can use.
#[derive(Debug, Clone, Copy, PartialEq, Eq, Structural)]
pub enum FilterPixelType {
    VERTICAL,
    HORIZONTAL,
    DIAGONAL,
    CIRCLE,
}

/// The axis along which a gradient or a banded fill runs.
#[derive(Debug, Clone, Copy, PartialEq, Eq, Structural)]
pub enum GradientDirection {
    VERTICAL,
    HORIZONTAL,
}

/// The fully transparent overlay sample the mask emits off its stripes.
pub open spec fn transparent_white() -> ColorRgba {
    ColorRgba { red: 255, green: 255, blue: 255, alpha: 0 }
}

/// The vertical-stripe mask sample for a pixel in column x: the caller's
/// color on every fourth column, fully transparent elsewhere.
pub open spec fn mask_pix(x: int, color: ColorRgba) -> ColorRgba {
    if x % 4 == 0 {
        color
    } else {
        transparent_white()
    }
}

/// The grid after blending the vertical-stripe mask over every pixel.
pub open spec fn mask_filtered(g: GridView, color: ColorRgba) -> GridView {
    GridView {
        width: g.width,
        height: g.height,
        pixels: Seq::new(
            g.pixels.len(),
            |i: int| blend_over(g.pixels[i], mask_pix(i % g.width as int, color)),
        ),
    }
}

/// Each source sample blended with the overlay sample at the same spot.
pub open spec fn composited(src: Seq<ColorRgba>, ov: Seq<ColorRgba>) -> Seq<ColorRgba> {
    Seq::new(src.len(), |i: int| blend_over(src[i], ov[i]))
}

/// The overlay a gradient filter synthesizes, as flat RGBA bytes. With
/// a single column (or row) there is nothing to interpolate across, and
/// the overlay is the start color throughout.
pub open spec fn gradient_overlay(
    g: GridView,
    from: ColorRgba,
    to: ColorRgba,
    dir: GradientDirection,
) -> Seq<u8> {
    match dir {
        GradientDirection::HORIZONTAL => if g.width >= 2 {
            hgradient_of(g.width, g.height, from, to)
        } else {
            flat_of(Seq::new(g.pixels.len(), |i: int| from))
        },
        GradientDirection::VERTICAL => if g.height >= 2 {
            vgradient_of(g.width, g.height, from, to)
        } else {
            flat_of(Seq::new(g.pixels.len(), |i: int| from))
        },
    }
}

/// The overlay samples a gradient filter blends over the source.
pub open spec fn gradient_overlay_px(
    g: GridView,
    from: ColorRgba,
    to: ColorRgba,
    dir: GradientDirection,
) -> Seq<ColorRgba> {
    colors_of(gradient_overlay(g, from, to, dir))
}

/// The shape of a gradient overlay: one sample per source pixel, the
/// start color at offset 0 along the gradient axis, the end color at
/// the far edge (when there are at least two steps), and a constant
/// value along the other axis.
pub open spec fn gradient_overlay_shape(
    g: GridView,
    from: ColorRgba,
    to: ColorRgba,
    dir: GradientDirection,
) -> bool {
    let ov = gradient_overlay_px(g, from, to, dir);
    let w = g.width as int;
    let h = g.height as int;
    &&& ov.len() == g.pixels.len()
    &&& (dir is HORIZONTAL ==> forall|i: int| 0 <= i < ov.len() ==> #[trigger] ov[i] == ov[i % w])
    &&& (dir is HORIZONTAL ==> forall|i: int|
        0 <= i < ov.len() && i % w == 0 ==> #[trigger] ov[i] == from)
    &&& (dir is HORIZONTAL && w >= 2 ==> forall|i: int|
        0 <= i < ov.len() && i % w == w - 1 ==> #[trigger] ov[i] == to)
    &&& (dir is VERTICAL ==> forall|i: int|
        0 <= i < ov.len() ==> #[trigger] ov[i] == ov[(i / w) * w])
    &&& (dir is VERTICAL ==> forall|i: int|
        0 <= i < ov.len() && i / w == 0 ==> #[trigger] ov[i] == from)
    &&& (dir is VERTICAL && h >= 2 ==> forall|i: int|
        0 <= i < ov.len() && i / w == h - 1 ==> #[trigger] ov[i] == to)
}

/// The grid after blending a two-color linear gradient over it.
pub open spec fn gradient_filtered(
    g: GridView,
    from: ColorRgba,
    to: ColorRgba,
    dir: GradientDirection,
) -> GridView {
    GridView {
        width: g.width,
        height: g.height,
        pixels: composited(g.pixels, colors_of(gradient_overlay(g, from, to, dir))),
    }
}

/// The sample a banded fill leaves at flat position i: pixels of band b
/// take color b blended over them, pixels past the last band boundary
/// and any remainder of the integer division stay untouched.
pub open spec fn band_pix(
    g: GridView,
    colors: Seq<ColorRgba>,
    dir: GradientDirection,
    i: int,
) -> ColorRgba {
    let pos = if dir is VERTICAL {
        i % g.width as int
    } else {
        i / g.width as int
    };
    let dim = if dir is VERTICAL {
        g.width as int
    } else {
        g.height as int
    };
    let bw = dim / colors.len() as int;
    if bw > 0 && pos < colors.len() * bw {
        blend_over(g.pixels[i], colors[pos / bw])
    } else {
        g.pixels[i]
    }
}

/// The grid after a banded fill with at least one color.
pub open spec fn band_filtered(g: GridView, colors: Seq<ColorRgba>, dir: GradientDirection) -> GridView
    recommends
        colors.len() >= 1,
{
    GridView {
        width: g.width,
        height: g.height,
        pixels: Seq::new(g.pixels.len(), |i: int| band_pix(g, colors, dir, i)),
    }
}

/// An edge magnitude clamped into one 8-bit sample.
pub open spec fn mag_px(m: u16) -> ColorRgba {
    let v = if m > 255 {
        255u8
    } else {
        m as u8
    };
    ColorRgba { red: v, green: v, blue: v, alpha: 255 }
}

/// The edge-magnitude map of a grid: the Sobel magnitudes of its
/// luminance, re-expressed as a full opaque gray image of the same
/// dimensions; color and alpha of the source are discarded.
pub open spec fn sobel_filtered(g: GridView) -> GridView {
    GridView {
        width: g.width,
        height: g.height,
        pixels: Seq::new(
            g.pixels.len(),
            |i: int| mag_px(sobel_of(g.width, g.height, luma_of(flat_of(g.pixels)))[i]),
        ),
    }
}

/// Blends overlay samples over source samples, spot by spot.
fn composite_exec(src: &Vec<ColorRgba>, ov: &Vec<ColorRgba>) -> (r: Vec<ColorRgba>)
    requires
        src@.len() == ov@.len(),
    ensures
        r@ == composited(src@, ov@),
{
    let n: usize = src.len();
    let mut out: Vec<ColorRgba> = Vec::new();
    let mut i: usize = 0;
    while i < n
        invariant
            i <= n,
            n == src@.len(),
            src@.len() == ov@.len(),
            out@.len() == i,
            forall|j: int| 0 <= j < i ==> out@[j] == composited(src@, ov@)[j],
        decreases n - i,
    {
        out.push(blend_px(src[i], ov[i]));
        i = i + 1;
    }
    proof {
        assert(out@ =~= composited(src@, ov@));
    }
    out
}

/// Builds the vertical-stripe mask overlay for an n-sample grid of the
/// given width.
fn mask_overlay_exec(w: u32, n: usize, color: ColorRgba) -> (r: Vec<ColorRgba>)
    requires
        1 <= w,
    ensures
        r@.len() == n,
        forall|j: int| 0 <= j < n ==> r@[j] == mask_pix(j % w as int, color),
{
    let mut out: Vec<ColorRgba> = Vec::new();
    let mut i: usize = 0;
    let mut x: u32 = 0;
    while i < n
        invariant
            1 <= w,
            i <= n,
            out@.len() == i,
            x == (i as int) % (w as int),
            forall|j: int| 0 <= j < i ==> out@[j] == mask_pix(j % w as int, color),
        decreases n - i,
    {
        if x % 4 == 0 {
            out.push(color);
        } else {
            out.push(ColorRgba::new(255, 255, 255, 0));
        }
        proof {
            lemma_fundamental_div_mod(i as int, w as int);
            let q: int = (i as int) / (w as int);
            if x + 1 == w {
                assert((q + 1) * (w as int) + 0 == i + 1) by (nonlinear_arith)
                    requires
                        i as int == (w as int) * q + (x as int),
                        x + 1 == w,
                ;
                lemma_fundamental_div_mod_converse((i + 1) as int, w as int, q + 1, 0);
            } else {
                assert(q * (w as int) + ((x + 1) as int) == i + 1) by (nonlinear_arith)
                    requires
                        i as int == (w as int) * q + (x as int),
                ;
                lemma_fundamental_div_mod_converse((i + 1) as int, w as int, q, (x + 1) as int);
            }
        }
        i = i + 1;
        x = x + 1;
        if x == w {
            x = 0;
        }
    }
    out
}

/// Overlays the requested coordinate mask on the image. Only the
/// vertical stripe rule is implemented; the other declared variants
/// fail with NotImplemented rather than silently reusing it.
pub fn filter_pixel(img: &PixelGrid, pixel_type: FilterPixelType, color: ColorRgba) -> (r: Result<
    PixelGrid,
    ErrorCode,
>)
    requires
        img@.wf(),
    ensures
        pixel_type is VERTICAL ==> (r matches Ok(g) && g@ == mask_filtered(img@, color)
            && g@.wf()),
        !(pixel_type is VERTICAL) ==> (r matches Err(e) && e == ErrorCode::NotImplemented),
{
    match pixel_type {
        FilterPixelType::VERTICAL => {
            let ov = mask_overlay_exec(img.width(), img.pixel_count(), color);
            let out = composite_exec(img.pixels_ref(), &ov);
            proof {
                assert(composited(img@.pixels, ov@) =~= mask_filtered(img@, color).pixels);
            }
            match PixelGrid::new(img.width(), img.height(), out) {
                Some(g) => Ok(g),
                None => vstd::pervasive::unreached(),
            }
        },
        _ => Err(ErrorCode::NotImplemented),
    }
}

/// Synthesizes a two-color linear gradient across the image's width or
/// height and blends it over the image.
pub fn filter_gradient(
    img: &PixelGrid,
    color_from: ColorRgba,
    color_to: ColorRgba,
    gradient: GradientDirection,
) -> (r: Result<PixelGrid, ErrorCode>)
    requires
        img@.wf(),
    ensures
        r matches Ok(g) && g@ == gradient_filtered(img@, color_from, color_to, gradient)
            && g@.wf(),
        gradient_overlay_shape(img@, color_from, color_to, gradient),
{
    let w: u32 = img.width();
    let h: u32 = img.height();
    let n: usize = img.pixel_count();
    proof {
        assert(img@.pixels.len() == img@.width * img@.height);
    }
    let degenerate: bool = match gradient {
        GradientDirection::HORIZONTAL => w < 2,
        GradientDirection::VERTICAL => h < 2,
    };
    let ov: Vec<ColorRgba> = if degenerate {
        let mut v: Vec<ColorRgba> = Vec::new();
        let mut i: usize = 0;
        while i < n
            invariant
                i <= n,
                v@ =~= Seq::new(i as nat, |j: int| color_from),
            decreases n - i,
        {
            v.push(color_from);
            i = i + 1;
        }
        proof {
            lemma_colors_of_flat(Seq::new(n as nat, |j: int| color_from));
            assert(v@ =~= Seq::new(n as nat, |j: int| color_from));
            assert(v@ =~= gradient_overlay_px(img@, color_from, color_to, gradient));
            let ovs = gradient_overlay_px(img@, color_from, color_to, gradient);
            let wi: int = img@.width as int;
            assert forall|i: int| 0 <= i < ovs.len() implies #[trigger] ovs[i] == ovs[i % wi]
                && ovs[i] == ovs[(i / wi) * wi] && ovs[i] == color_from by {
                lemma_fundamental_div_mod(i, wi);
                lemma_mod_pos_bound(i, wi);
                vstd::arithmetic::div_mod::lemma_div_pos_is_pos(i, wi);
                assert(0 <= (i / wi) * wi <= i) by (nonlinear_arith)
                    requires
                        i == wi * (i / wi) + i % wi,
                        0 <= i % wi,
                        0 <= i,
                        0 <= i / wi,
                        1 <= wi,
                ;
            }
            assert(gradient_overlay_shape(img@, color_from, color_to, gradient));
        }
        v
    } else {
        let gb = match gradient {
            GradientDirection::HORIZONTAL => horizontal_gradient_exec(
                w,
                h,
                color_from,
                color_to,
            ),
            GradientDirection::VERTICAL => vertical_gradient_exec(w, h, color_from, color_to),
        };
        proof {
            assert(4 * (w as int) * (h as int) == 4 * ((w as int) * (h as int)))
                by (nonlinear_arith);
            super::pixel_grid::lemma_len_quarter(gb@.len() as int, (w as int) * (h as int));
        }
        let ovv = bytes_to_colors(&gb);
        proof {
            let ovs = gradient_overlay_px(img@, color_from, color_to, gradient);
            let wi: int = img@.width as int;
            let hi: int = img@.height as int;
            assert(gb@ == gradient_overlay(img@, color_from, color_to, gradient));
            assert(ovs.len() == img@.pixels.len());
            if gradient is HORIZONTAL {
                assert forall|i: int| 0 <= i < ovs.len() implies #[trigger] ovs[i] == ovs[i
                    % wi] by {
                    assert(colors_of(gb@)[i] == colors_of(gb@)[i % (w as int)]);
                }
                assert forall|i: int| 0 <= i < ovs.len() && i % wi == 0 implies #[trigger] ovs[i]
                    == color_from by {
                    assert(colors_of(gb@)[i] == color_from);
                }
                assert forall|i: int|
                    0 <= i < ovs.len() && i % wi == wi - 1 implies #[trigger] ovs[i]
                    == color_to by {
                    assert(colors_of(gb@)[i] == color_to);
                }
            } else {
                assert forall|i: int| 0 <= i < ovs.len() implies #[trigger] ovs[i] == ovs[(i / wi)
                    * wi] by {
                    assert(colors_of(gb@)[i] == colors_of(gb@)[(i / (w as int)) * (w as int)]);
                }
                assert forall|i: int| 0 <= i < ovs.len() && i / wi == 0 implies #[trigger] ovs[i]
                    == color_from by {
                    assert(colors_of(gb@)[i] == color_from);
                }
                assert forall|i: int|
                    0 <= i < ovs.len() && i / wi == hi - 1 implies #[trigger] ovs[i]
                    == color_to by {
                    assert(colors_of(gb@)[i] == color_to);
                }
            }
            assert(gradient_overlay_shape(img@, color_from, color_to, gradient));
        }
        ovv
    };
    let out = composite_exec(img.pixels_ref(), &ov);
    proof {
        assert(out@ =~= gradient_filtered(img@, color_from, color_to, gradient).pixels);
    }
    match PixelGrid::new(w, h, out) {
        Some(g) => {
            proof {
                assert(g@ =~= gradient_filtered(img@, color_from, color_to, gradient));
            }
            Ok(g)
        },
        None => vstd::pervasive::unreached(),
    }
}

/// Replaces the image with the edge-magnitude map of its luminance.
pub fn filter_sobel(img: &PixelGrid) -> (r: Result<PixelGrid, ErrorCode>)
    requires
        img@.wf(),
    ensures
        r matches Ok(g) && g@ == sobel_filtered(img@) && g@.wf(),
{
    let w: u32 = img.width();
    let h: u32 = img.height();
    let flat = img.raw_bytes();
    proof {
        assert(img@.pixels.len() == img@.width * img@.height);
        assert(4 * (w as int) * (h as int) == 4 * ((w as int) * (h as int))) by (nonlinear_arith);
    }
    let lum = luma_exec(w, h, &flat);
    proof {
        super::pixel_grid::lemma_len_quarter(flat@.len() as int, (w as int) * (h as int));
    }
    let mags = sobel_exec(w, h, &lum);
    let n: usize = mags.len();
    let mut out: Vec<ColorRgba> = Vec::new();
    let mut i: usize = 0;
    while i < n
        invariant
            i <= n,
            n == mags@.len(),
            out@.len() == i,
            forall|j: int| 0 <= j < i ==> out@[j] == mag_px(mags@[j]),
        decreases n - i,
    {
        let m: u16 = mags[i];
        let v: u8 = if m > 255 {
            255
        } else {
            m as u8
        };
        out.push(ColorRgba::new(v, v, v, 255));
        i = i + 1;
    }
    proof {
        assert(out@ =~= sobel_filtered(img@).pixels);
    }
    match PixelGrid::new(w, h, out) {
        Some(g) => {
            proof {
                assert(g@ =~= sobel_filtered(img@));
            }
            Ok(g)
        },
        None => vstd::pervasive::unreached(),
    }
}

/// Builds the banded-fill samples for an image and at least one color.
fn band_fill_exec(img: &PixelGrid, colors: &Vec<ColorRgba>, direction: GradientDirection) -> (r:
    Vec<ColorRgba>)
    requires
        img@.wf(),
        colors@.len() >= 1,
    ensures
        r@ == band_filtered(img@, colors@, direction).pixels,
{
    let w: u32 = img.width();
    let h: u32 = img.height();
    let ncol: usize = colors.len();
    let dim: u32 = match direction {
        GradientDirection::VERTICAL => w,
        GradientDirection::HORIZONTAL => h,
    };
    let bw: usize = (dim as usize) / ncol;
    proof {
        lemma_fundamental_div_mod(dim as int, ncol as int);
        lemma_mod_pos_bound(dim as int, ncol as int);
    }
    let limit: usize = ncol * bw;
    let n: usize = img.pixel_count();
    let src = img.pixels_ref();
    proof {
        assert(img@.pixels.len() == img@.width * img@.height);
    }
    let mut out: Vec<ColorRgba> = Vec::new();
    let mut i: usize = 0;
    let mut x: u32 = 0;
    let mut y: u32 = 0;
    while i < n
        invariant
            img@.wf(),
            colors@.len() == ncol,
            1 <= ncol,
            w == img@.width,
            h == img@.height,
            dim == (if direction is VERTICAL {
                w
            } else {
                h
            }),
            bw == (dim as int) / (ncol as int),
            limit == ncol * bw,
            limit <= dim,
            n == img@.pixels.len(),
            src@ == img@.pixels,
            i <= n,
            out@.len() == i,
            x == (i as int) % (w as int),
            y == (i as int) / (w as int),
            forall|j: int| 0 <= j < i ==> out@[j] == band_filtered(img@, colors@, direction).pixels[j],
        decreases n - i,
    {
        let pos: u32 = match direction {
            GradientDirection::VERTICAL => x,
            GradientDirection::HORIZONTAL => y,
        };
        if bw > 0 && (pos as usize) < limit {
            proof {
                assert((pos as int) < (bw as int) * (ncol as int)) by (nonlinear_arith)
                    requires
                        (pos as int) < (ncol as int) * (bw as int),
                ;
                lemma_multiply_divide_lt(pos as int, bw as int, ncol as int);
            }
            let band: usize = (pos as usize) / bw;
            out.push(blend_px(src[i], colors[band]));
        } else {
            out.push(src[i]);
        }
        proof {
            assert(out@[i as int] == band_pix(img@, colors@, direction, i as int));
            assert(out@[i as int] == band_filtered(img@, colors@, direction).pixels[i as int]);
            lemma_fundamental_div_mod(i as int, w as int);
            lemma_multiply_divide_lt(i as int, w as int, h as int);
            let q: int = (i as int) / (w as int);
            if x + 1 == w {
                assert((q + 1) * (w as int) + 0 == i + 1) by (nonlinear_arith)
                    requires
                        i as int == (w as int) * q + (x as int),
                        x + 1 == w,
                ;
                lemma_fundamental_div_mod_converse((i + 1) as int, w as int, q + 1, 0);
            } else {
                assert(q * (w as int) + ((x + 1) as int) == i + 1) by (nonlinear_arith)
                    requires
                        i as int == (w as int) * q + (x as int),
                ;
                lemma_fundamental_div_mod_converse((i + 1) as int, w as int, q, (x + 1) as int);
            }
        }
        i = i + 1;
        x = x + 1;
        if x == w {
            x = 0;
            y = y + 1;
        }
    }
    proof {
        assert(out@ =~= band_filtered(img@, colors@, direction).pixels);
    }
    out
}

/// Partitions the image along one axis into equal bands, one per
/// supplied color, painting band b with color b; an empty color list
/// leaves the image untouched, and the remainder of the integer
/// division past the last band boundary is never painted.
pub fn filter_band_color(
    img: &PixelGrid,
    colors: Vec<ColorRgba>,
    direction: GradientDirection,
) -> (r: Result<PixelGrid, ErrorCode>)
    requires
        img@.wf(),
    ensures
        r is Ok,
        colors@.len() == 0 ==> (r matches Ok(g) && g@ == img@),
        colors@.len() >= 1 ==> (r matches Ok(g) && g@ == band_filtered(img@, colors@, direction)
            && g@.wf()),
{
    if colors.len() == 0 {
        return Ok(img.duplicate());
    }
    let out = band_fill_exec(img, &colors, direction);
    proof {
        assert(img@.pixels.len() == img@.width * img@.height);
    }
    match PixelGrid::new(img.width(), img.height(), out) {
        Some(g) => {
            proof {
                assert(g@ =~= band_filtered(img@, colors@, direction));
            }
            Ok(g)
        },
        None => vstd::pervasive::unreached(),
    }
}

} // verus!
