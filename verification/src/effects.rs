use vstd::prelude::*;
use crate::raster::GrayRaster;
use crate::state::ImageEffect;

verus! {

/// Binary quantisation of one tone: strictly above the fixed cutoff 128
/// becomes white, everything else black.
pub open spec fn spec_threshold_v(v: int) -> int {
    if v > 128 {
        255
    } else {
        0
    }
}

/// Quantisation of one tone to four evenly spaced levels: integer division
/// by the step 85 (that is `255 / (4 - 1)`), multiplied back.
pub open spec fn spec_posterize_v(v: int) -> int {
    (v / 85) * 85
}

/// The pointwise single-channel effects.
#[derive(Clone, Copy, Debug, PartialEq, Eq, Structural)]
pub enum GrayPointKind {
    Threshold,
    Posterize,
}

/// What each pointwise effect does to one tone.
pub open spec fn spec_gray_point_v(kind: GrayPointKind, v: int) -> int {
    match kind {
        GrayPointKind::Threshold => spec_threshold_v(v),
        GrayPointKind::Posterize => spec_posterize_v(v),
    }
}

/// `out` is `img` with the pointwise effect applied to every tone.
pub open spec fn is_gray_point_map(out: GrayRaster, img: GrayRaster, kind: GrayPointKind) -> bool {
    &&& out.wf()
    &&& out.width == img.width
    &&& out.height == img.height
    &&& out.data@.len() == img.data@.len()
    &&& forall|i: int|
        0 <= i < img.data@.len()
            ==> out.data@[i] as int == spec_gray_point_v(kind, #[trigger] img.data@[i] as int)
}

/// Applies one pointwise effect to a whole plate.
fn gray_point_map(img: &GrayRaster, kind: GrayPointKind) -> (out: GrayRaster)
    requires
        img.wf(),
    ensures
        is_gray_point_map(out, *img, kind),
{
    let n = img.data.len();
    let mut data: Vec<u8> = Vec::new();
    let mut i: usize = 0;
    while i < n
        invariant
            img.wf(),
            n == img.data.len(),
            i <= n,
            data.len() == i,
            forall|j: int|
                0 <= j < i
                    ==> data@[j] as int == spec_gray_point_v(kind, #[trigger] img.data@[j] as int),
        decreases n - i,
    {
        let v = img.data[i];
        let o: u8 = match kind {
            GrayPointKind::Threshold => if v > 128 {
                255
            } else {
                0
            },
            GrayPointKind::Posterize => (v / 85) * 85,
        };
        data.push(o);
        i += 1;
    }
    GrayRaster { width: img.width, height: img.height, data }
}

/// Leaves the plate exactly as it is.
pub struct Original;

/// Sequential Floyd-Steinberg error diffusion to pure black and white.
pub struct Dither;

/// Fixed-grid halftone dots: 6-pixel cells, dot radius by mean darkness.
pub struct HalfTone;

/// Binary quantisation at the fixed cutoff 128.
pub struct Threshold;

/// Quantisation to four evenly spaced tone levels.
pub struct Posterize;

impl Original {
    /// An exact copy of the plate.
    pub fn apply(&self, image: &GrayRaster) -> (out: GrayRaster)
        requires
            image.wf(),
        ensures
            out.wf(),
            out.width == image.width,
            out.height == image.height,
            out.data@ == image.data@,
    {
        let data = image.data.clone();
        proof {
            assert(data@ =~= image.data@);
        }
        GrayRaster { width: image.width, height: image.height, data }
    }
}

impl Threshold {
    /// Binary quantisation of every tone at the cutoff 128.
    pub fn apply(&self, image: &GrayRaster) -> (out: GrayRaster)
        requires
            image.wf(),
        ensures
            is_gray_point_map(out, *image, GrayPointKind::Threshold),
    {
        gray_point_map(image, GrayPointKind::Threshold)
    }
}

impl Posterize {
    /// Quantisation of every tone to four levels.
    pub fn apply(&self, image: &GrayRaster) -> (out: GrayRaster)
        requires
            image.wf(),
        ensures
            is_gray_point_map(out, *image, GrayPointKind::Posterize),
    {
        gray_point_map(image, GrayPointKind::Posterize)
    }
}

/// The sum of the first `n` tones of row `j` of the 6x6 cell at cell
/// coordinates `(cx, cy)`.
pub open spec fn spec_cell_row_sum(img: GrayRaster, cx: int, cy: int, j: int, n: int) -> int
    decreases n,
        when n >= 0
{
    if n <= 0 {
        0
    } else {
        spec_cell_row_sum(img, cx, cy, j, n - 1) + img.spec_at(cx * 6 + (n - 1), cy * 6 + j)
    }
}

/// The sum of the first `j` rows of the 6x6 cell at `(cx, cy)`.
pub open spec fn spec_cell_sum(img: GrayRaster, cx: int, cy: int, j: int) -> int
    decreases j,
        when j >= 0
{
    if j <= 0 {
        0
    } else {
        spec_cell_sum(img, cx, cy, j - 1) + spec_cell_row_sum(img, cx, cy, j - 1, 6)
    }
}

/// The mean tone of the 6x6 cell at `(cx, cy)`.
pub open spec fn spec_cell_avg(img: GrayRaster, cx: int, cy: int) -> int {
    spec_cell_sum(img, cx, cy, 6) / 36
}

/// Whether the halftone dot of a cell with mean tone `avg` covers the pixel
/// at offset `(ox, oy)` inside the cell. The dot is centred in the cell with
/// radius `(6 / 1.3) * (255 - avg) / 255`; the test compares squared
/// distances in exact rational arithmetic (half-pixel units squared, scaled
/// by `4 * 169 * 65025`).
pub open spec fn spec_dot_covers(ox: int, oy: int, avg: int) -> bool {
    let hx = 2 * ox - 5;
    let hy = 2 * oy - 5;
    (hx * hx + hy * hy) * 10989225 <= 14400 * ((255 - avg) * (255 - avg))
}

/// The halftone tone at `(x, y)`: black inside the dot of its cell, white
/// outside; pixels past the last full cell in either direction stay white.
pub open spec fn spec_halftone_at(img: GrayRaster, x: int, y: int) -> u8 {
    let cx = x / 6;
    let cy = y / 6;
    if cx < img.width as int / 6 && cy < img.height as int / 6 {
        if spec_dot_covers(x % 6, y % 6, spec_cell_avg(img, cx, cy)) {
            0u8
        } else {
            255u8
        }
    } else {
        255u8
    }
}

/// `out` is the halftone rendering of `img`: same geometry, each tone the
/// dot test of its cell.
pub open spec fn is_halftoned(out: GrayRaster, img: GrayRaster) -> bool {
    &&& out.wf()
    &&& out.width == img.width
    &&& out.height == img.height
    &&& forall|x: int, y: int|
        0 <= x < img.width && 0 <= y < img.height
            ==> #[trigger] out.spec_at(x, y) == spec_halftone_at(img, x, y)
}

/// A cell sum of byte tones stays within `[0, 36 * 255]`.
proof fn lemma_cell_sum_bounds(img: GrayRaster, cx: int, cy: int, j: int)
    requires
        0 <= j <= 6,
    ensures
        0 <= spec_cell_sum(img, cx, cy, j) <= j * 255 * 6,
    decreases j,
{
    if j > 0 {
        lemma_cell_sum_bounds(img, cx, cy, j - 1);
        lemma_cell_row_sum_bounds(img, cx, cy, j - 1, 6);
    }
}

/// A cell row sum of byte tones stays within `[0, n * 255]`.
proof fn lemma_cell_row_sum_bounds(img: GrayRaster, cx: int, cy: int, j: int, n: int)
    requires
        0 <= n <= 6,
    ensures
        0 <= spec_cell_row_sum(img, cx, cy, j, n) <= n * 255,
    decreases n,
{
    if n > 0 {
        lemma_cell_row_sum_bounds(img, cx, cy, j, n - 1);
    }
}

/// A full cell lies inside the image: its pixel coordinates are in range.
proof fn lemma_cell_in_range(c: int, o: int, n: int)
    requires
        0 <= c < n / 6,
        0 <= o < 6,
        0 <= n,
    ensures
        0 <= c * 6 + o < n,
    {
    assert(c * 6 + o < (n / 6) * 6) by (nonlinear_arith)
        requires
            0 <= c < n / 6 && 0 <= o < 6,
    ;
    assert((n / 6) * 6 <= n) by (nonlinear_arith)
        requires
            0 <= n,
    ;
}

/// Computes the sum of the 36 tones of one full cell.
fn cell_sum(img: &GrayRaster, cx: usize, cy: usize) -> (s: u32)
    requires
        img.wf(),
        cx < img.width / 6,
        cy < img.height / 6,
    ensures
        s as int == spec_cell_sum(*img, cx as int, cy as int, 6),
        s <= 9180,
{
    let mut s: u32 = 0;
    let mut j: usize = 0;
    while j < 6
        invariant
            img.wf(),
            cx < img.width / 6,
            cy < img.height / 6,
            j <= 6,
            s as int == spec_cell_sum(*img, cx as int, cy as int, j as int),
            s <= 9180,
        decreases 6 - j,
    {
        proof {
            lemma_cell_sum_bounds(*img, cx as int, cy as int, j as int);
            lemma_cell_row_sum_bounds(*img, cx as int, cy as int, j as int, 6);
        }
        let mut row: u32 = 0;
        let mut i: usize = 0;
        while i < 6
            invariant
                img.wf(),
                cx < img.width / 6,
                cy < img.height / 6,
                j < 6,
                i <= 6,
                row as int == spec_cell_row_sum(*img, cx as int, cy as int, j as int, i as int),
                row <= 1530,
            decreases 6 - i,
        {
            proof {
                lemma_cell_in_range(cx as int, i as int, img.width as int);
                lemma_cell_in_range(cy as int, j as int, img.height as int);
                lemma_cell_row_sum_bounds(*img, cx as int, cy as int, j as int, i as int);
            }
            row = row + img.get(cx * 6 + i, cy * 6 + j) as u32;
            i += 1;
        }
        s = s + row;
        j += 1;
    }
    s
}

/// Evaluates the squared-distance dot test for one pixel offset.
fn dot_covers(ox: usize, oy: usize, avg: u32) -> (r: bool)
    requires
        ox < 6,
        oy < 6,
        avg <= 255,
    ensures
        r == spec_dot_covers(ox as int, oy as int, avg as int),
{
    let hx: i64 = 2 * ox as i64 - 5;
    let hy: i64 = 2 * oy as i64 - 5;
    proof {
        assert(0 <= hx * hx <= 25) by (nonlinear_arith)
            requires
                -5 <= hx <= 5,
        ;
        assert(0 <= hy * hy <= 25) by (nonlinear_arith)
            requires
                -5 <= hy <= 5,
        ;
    }
    let lhs: i64 = (hx * hx + hy * hy) * 10989225;
    let d: i64 = 255 - avg as i64;
    proof {
        assert(0 <= d * d <= 65025) by (nonlinear_arith)
            requires
                0 <= d <= 255,
        ;
    }
    let rhs: i64 = 14400 * (d * d);
    lhs <= rhs
}

impl HalfTone {
    /// Renders the plate as halftone dots on a 6-pixel grid.
    pub fn apply(&self, image: &GrayRaster) -> (out: GrayRaster)
        requires
            image.wf(),
        ensures
            is_halftoned(out, *image),
    {
        let w = image.width;
        let h = image.height;
        let mut data: Vec<u8> = Vec::new();
        let mut y: usize = 0;
        while y < h
            invariant
                image.wf(),
                w == image.width,
                h == image.height,
                y <= h,
                data.len() == y * w,
                forall|yy: int, xx: int|
                    0 <= yy < y && 0 <= xx < w
                        ==> data@[yy * w + xx] == #[trigger] spec_halftone_at(*image, xx, yy),
            decreases h - y,
        {
            let mut x: usize = 0;
            while x < w
                invariant
                    image.wf(),
                    w == image.width,
                    h == image.height,
                    y < h,
                    x <= w,
                    data.len() == y * w + x,
                    forall|yy: int, xx: int|
                        0 <= yy < y && 0 <= xx < w
                            ==> data@[yy * w + xx] == #[trigger] spec_halftone_at(*image, xx, yy),
                    forall|xx: int|
                        0 <= xx < x
                            ==> data@[y * w + xx]
                                == #[trigger] spec_halftone_at(*image, xx, y as int),
                decreases w - x,
            {
                proof {
                    crate::raster::lemma_rc_index(x as int, y as int, w as int, h as int);
                    crate::raster::lemma_rows_below(y as int, w as int);
                }
                let cx = x / 6;
                let cy = y / 6;
                let tone: u8 = if cx < w / 6 && cy < h / 6 {
                    let s = cell_sum(image, cx, cy);
                    let avg = s / 36;
                    proof {
                        lemma_cell_sum_bounds(*image, cx as int, cy as int, 6);
                    }
                    if dot_covers(x % 6, y % 6, avg) {
                        0
                    } else {
                        255
                    }
                } else {
                    255
                };
                data.push(tone);
                x += 1;
            }
            proof {
                crate::raster::lemma_next_row(y as int, w as int);
            }
            y += 1;
        }
        proof {
            assert((h as int) * (w as int) == (w as int) * (h as int)) by (nonlinear_arith);
            crate::raster::lemma_rows_below(h as int, w as int);
        }
        GrayRaster { width: w, height: h, data }
    }
}

/// The initial dither working buffer: each tone scaled by 16, a fixed-point
/// representation with four fraction bits.
pub open spec fn spec_dither_init(s: Seq<u8>) -> Seq<int> {
    Seq::new(s.len(), |i: int| 16 * (s[i] as int))
}

/// Quantisation of a working value: strictly above mid-gray (128, scaled)
/// becomes full white, everything else black.
pub open spec fn spec_dither_quant(v: int) -> int {
    if v > 2048 {
        4080
    } else {
        0
    }
}

/// The share `c / 16` of a quantisation error, truncated toward zero.
pub open spec fn spec_share(e: int, c: int) -> int {
    if e >= 0 {
        (e * c) / 16
    } else {
        -(((-e) * c) / 16)
    }
}

/// A working value saturated into wide sentinel bounds. Error diffusion from
/// byte tones keeps every working value well inside these bounds; the
/// saturation makes that a property of the recurrence itself, so that no
/// separate range argument is needed.
pub open spec fn spec_dither_sat(v: int) -> int {
    crate::filters::spec_clamp(v, -4096, 8192)
}

/// One Floyd-Steinberg step: pixel `k` (row-major) is quantised in place and
/// its error diffused to the right neighbour (7/16), below-left (3/16),
/// below (5/16) and below-right (1/16), skipping targets outside the image.
/// Every diffusion target lies strictly after `k` in scan order, so a
/// quantised pixel is never touched again.
pub open spec fn spec_dither_step(s: Seq<int>, w: int, h: int, k: int) -> Seq<int> {
    let x = k % w;
    let y = k / w;
    let old = s[k];
    let q = spec_dither_quant(old);
    let e = old - q;
    let s0 = s.update(k, q);
    let s1 = if x + 1 < w {
        s0.update(k + 1, spec_dither_sat(s0[k + 1] + spec_share(e, 7)))
    } else {
        s0
    };
    let s2 = if x > 0 && y + 1 < h {
        s1.update(k + w - 1, spec_dither_sat(s1[k + w - 1] + spec_share(e, 3)))
    } else {
        s1
    };
    let s3 = if y + 1 < h {
        s2.update(k + w, spec_dither_sat(s2[k + w] + spec_share(e, 5)))
    } else {
        s2
    };
    if x + 1 < w && y + 1 < h {
        s3.update(k + w + 1, spec_dither_sat(s3[k + w + 1] + spec_share(e, 1)))
    } else {
        s3
    }
}

/// The working buffer after the first `k` pixels have been processed in
/// row-major scan order.
pub open spec fn spec_dither_state(s0: Seq<int>, w: int, h: int, k: int) -> Seq<int>
    decreases k,
        when k >= 0
{
    if k <= 0 {
        s0
    } else {
        spec_dither_step(spec_dither_state(s0, w, h, k - 1), w, h, k - 1)
    }
}

/// The fully processed working buffer of a plate.
pub open spec fn spec_dither_final(img: GrayRaster) -> Seq<int> {
    spec_dither_state(
        spec_dither_init(img.data@),
        img.width as int,
        img.height as int,
        img.data@.len() as int,
    )
}

/// The output tone of a working value: saturated to the byte range and
/// scaled back down.
pub open spec fn spec_dither_out(v: int) -> int {
    crate::filters::spec_clamp(v, 0, 4080) / 16
}

/// `out` is the Floyd-Steinberg dithering of `img`: same geometry, each
/// tone read off the fully processed working buffer.
pub open spec fn is_dithered(out: GrayRaster, img: GrayRaster) -> bool {
    &&& out.wf()
    &&& out.width == img.width
    &&& out.height == img.height
    &&& out.data@.len() == img.data@.len()
    &&& forall|i: int|
        0 <= i < img.data@.len()
            ==> out.data@[i] as int == spec_dither_out(#[trigger] spec_dither_final(img)[i])
}

/// Builds the dithered plate. The scan is inherently sequential: each
/// pixel's quantisation depends on the error diffused from the pixels
/// before it, so rows must not be processed independently.
#[verifier::rlimit(100)]
fn dither_gray(img: &GrayRaster) -> (out: GrayRaster)
    requires
        img.wf(),
    ensures
        is_dithered(out, *img),
{
    let w = img.width;
    let h = img.height;
    let n = img.data.len();
    let ghost init = spec_dither_init(img.data@);

    let mut buf: Vec<i32> = Vec::new();
    let mut i: usize = 0;
    while i < n
        invariant
            img.wf(),
            n == img.data.len(),
            i <= n,
            buf.len() == i,
            init == spec_dither_init(img.data@),
            forall|j: int| 0 <= j < i ==> #[trigger] buf@[j] as int == init[j],
        decreases n - i,
    {
        buf.push(16 * img.data[i] as i32);
        i += 1;
    }
    proof {
        assert(buf@.map_values(|v: i32| v as int) =~= init);
        assert forall|j: int| 0 <= j < init.len() implies 0 <= #[trigger] init[j] <= 4080 by {
        }
    }

    let mut k: usize = 0;
    while k < n
        invariant
            img.wf(),
            w == img.width,
            h == img.height,
            n == img.data.len(),
            n == w * h,
            k <= n,
            buf.len() == n,
            init == spec_dither_init(img.data@),
            init.len() == n,
            forall|j: int| 0 <= j < init.len() ==> 0 <= #[trigger] init[j] <= 4080,
            buf@.map_values(|v: i32| v as int) == spec_dither_state(init, w as int, h as int,
                k as int),
        decreases n - k,
    {
        let ghost prev = spec_dither_state(init, w as int, h as int, k as int);
        let x = k % w;
        let y = k / w;
        proof {
            vstd::arithmetic::div_mod::lemma_fundamental_div_mod(k as int, w as int);
            assert((w as int) * (y as int) == (y as int) * (w as int)) by (nonlinear_arith);
            assert((k as int) / (w as int) < h as int) by (nonlinear_arith)
                requires
                    0 <= k < (w as int) * (h as int) && 1 <= w,
            ;
            if x as int + 1 < w {
                crate::raster::lemma_rc_index(x as int + 1, y as int, w as int, h as int);
            }
            if y as int + 1 < h {
                crate::raster::lemma_rc_index(x as int, y as int + 1, w as int, h as int);
                crate::raster::lemma_next_row(y as int, w as int);
            }
            if x as int + 1 < w && y as int + 1 < h {
                crate::raster::lemma_rc_index(x as int + 1, y as int + 1, w as int, h as int);
            }
            assert((h as int) * (w as int) == (w as int) * (h as int)) by (nonlinear_arith);
        }
        let old = buf[k];
        let q: i32 = if old > 2048 {
            4080
        } else {
            0
        };
        buf.set(k, q);
        let e: i64 = old as i64 - q as i64;
        if x + 1 < w {
            let t = sat_add(buf[k + 1], diffuse_share(e, 7));
            buf.set(k + 1, t);
        }
        if x > 0 && y + 1 < h {
            let t = sat_add(buf[k + w - 1], diffuse_share(e, 3));
            buf.set(k + w - 1, t);
        }
        if y + 1 < h {
            let t = sat_add(buf[k + w], diffuse_share(e, 5));
            buf.set(k + w, t);
        }
        if x + 1 < w && y + 1 < h {
            let t = sat_add(buf[k + w + 1], diffuse_share(e, 1));
            buf.set(k + w + 1, t);
        }
        proof {
            assert(buf@.map_values(|v: i32| v as int) =~= spec_dither_step(prev, w as int,
                h as int, k as int));
        }
        k += 1;
    }

    let mut data: Vec<u8> = Vec::new();
    let mut i2: usize = 0;
    while i2 < n
        invariant
            img.wf(),
            w == img.width,
            h == img.height,
            n == img.data.len(),
            n == w * h,
            i2 <= n,
            buf.len() == n,
            data.len() == i2,
            init == spec_dither_init(img.data@),
            init.len() == n,
            forall|j: int| 0 <= j < init.len() ==> 0 <= #[trigger] init[j] <= 4080,
            buf@.map_values(|v: i32| v as int) == spec_dither_final(*img),
            forall|j: int|
                0 <= j < i2 ==> data@[j] as int == spec_dither_out(
                    #[trigger] spec_dither_final(*img)[j]),
        decreases n - i2,
    {
        let v = buf[i2];
        let byte: u8 = if v < 0 {
            0
        } else if v > 4080 {
            255
        } else {
            ((v as u32) / 16) as u8
        };
        data.push(byte);
        i2 += 1;
    }
    GrayRaster { width: w, height: h, data }
}

/// Computes the truncated diffusion share of an error.
fn diffuse_share(e: i64, c: u64) -> (r: i64)
    requires
        -0x1_0000_0000 <= e <= 0x1_0000_0000,
        c <= 7,
    ensures
        r as int == spec_share(e as int, c as int),
{
    proof {
        if e >= 0 {
            assert((e as int) * (c as int) <= 0x1_0000_0000 * 7) by (nonlinear_arith)
                requires
                    0 <= e <= 0x1_0000_0000 && 0 <= c <= 7,
            ;
            assert(0 <= (e as int) * (c as int)) by (nonlinear_arith)
                requires
                    0 <= e && 0 <= c,
            ;
        } else {
            assert((-(e as int)) * (c as int) <= 0x1_0000_0000 * 7) by (nonlinear_arith)
                requires
                    0 < -(e as int) <= 0x1_0000_0000 && 0 <= c <= 7,
            ;
            assert(0 <= (-(e as int)) * (c as int)) by (nonlinear_arith)
                requires
                    0 <= -(e as int) && 0 <= c,
            ;
        }
    }
    if e >= 0 {
        (((e as u64) * c) / 16) as i64
    } else {
        let m = ((((-e) as u64) * c) / 16) as i64;
        -m
    }
}

/// Adds a diffusion share onto a working value, saturating at the
/// sentinel bounds.
fn sat_add(v: i32, share: i64) -> (r: i32)
    requires
        -0x1_0000_0000 <= share <= 0x1_0000_0000,
    ensures
        r as int == spec_dither_sat(v as int + share as int),
{
    let t: i64 = v as i64 + share;
    if t < -4096 {
        -4096
    } else if t > 8192 {
        8192
    } else {
        t as i32
    }
}

impl Dither {
    /// Sequential Floyd-Steinberg error diffusion over the whole plate.
    pub fn apply(&self, image: &GrayRaster) -> (out: GrayRaster)
        requires
            image.wf(),
        ensures
            is_dithered(out, *image),
    {
        dither_gray(image)
    }
}

/// Every pixel the scan has already processed holds a quantised value:
/// diffusion only ever targets pixels later in scan order, so a quantised
/// pixel is never disturbed again.
proof fn lemma_dither_visited_binary(s0: Seq<int>, w: int, h: int, k: int)
    requires
        1 <= w,
        1 <= h,
        s0.len() == w * h,
        0 <= k <= s0.len(),
    ensures
        forall|i: int|
            0 <= i < k ==> (#[trigger] spec_dither_state(s0, w, h, k)[i] == 0
                || spec_dither_state(s0, w, h, k)[i] == 4080),
        spec_dither_state(s0, w, h, k).len() == s0.len(),
    decreases k,
{
    if k > 0 {
        lemma_dither_visited_binary(s0, w, h, k - 1);
        let prev = spec_dither_state(s0, w, h, k - 1);
        let x = (k - 1) % w;
        let y = (k - 1) / w;
        vstd::arithmetic::div_mod::lemma_mod_bound(k - 1, w);
        vstd::arithmetic::div_mod::lemma_fundamental_div_mod(k - 1, w);
        assert(0 <= x < w);
        assert((k - 1) / w < h) by (nonlinear_arith)
            requires
                0 <= k - 1 < w * h && 1 <= w,
        ;
        assert(w * y == y * w) by (nonlinear_arith);
        if x + 1 < w {
            crate::raster::lemma_rc_index(x + 1, y, w, h);
        }
        if y + 1 < h {
            crate::raster::lemma_rc_index(x, y + 1, w, h);
            crate::raster::lemma_next_row(y, w);
        }
        if x + 1 < w && y + 1 < h {
            crate::raster::lemma_rc_index(x + 1, y + 1, w, h);
        }
        let old0 = prev[k - 1];
        let q = spec_dither_quant(old0);
        let e = old0 - q;
        let t0 = prev.update(k - 1, q);
        let t1 = if x + 1 < w {
            t0.update(k, spec_dither_sat(t0[k] + spec_share(e, 7)))
        } else {
            t0
        };
        let t2 = if x > 0 && y + 1 < h {
            t1.update(k + w - 2, spec_dither_sat(t1[k + w - 2] + spec_share(e, 3)))
        } else {
            t1
        };
        let t3 = if y + 1 < h {
            t2.update(k + w - 1, spec_dither_sat(t2[k + w - 1] + spec_share(e, 5)))
        } else {
            t2
        };
        let t4 = if x + 1 < w && y + 1 < h {
            t3.update(k + w, spec_dither_sat(t3[k + w] + spec_share(e, 1)))
        } else {
            t3
        };
        assert(spec_dither_state(s0, w, h, k) == t4);
        assert forall|i: int|
            0 <= i < k implies (#[trigger] spec_dither_state(s0, w, h, k)[i] == 0
                || spec_dither_state(s0, w, h, k)[i] == 4080) by {
            assert(prev.len() == s0.len());
            assert(0 <= i < prev.len());
            if x > 0 {
                assert(w >= 2);
            }
            if i < k - 1 {
                assert(t0[i] == prev[i]);
                assert(t1[i] == t0[i]);
                assert(t2[i] == t1[i]);
                assert(t3[i] == t2[i]);
                assert(t4[i] == t3[i]);
            } else {
                assert(i == k - 1);
                assert(t0[i] == q);
                assert(t1[i] == t0[i]);
                assert(t2[i] == t1[i]);
                assert(t3[i] == t2[i]);
                assert(t4[i] == t3[i]);
            }
        }
    }
}

/// Every tone of a dithered plate is pure black or pure white, whatever
/// the input plate held: the scan quantises each pixel exactly once.
pub proof fn lemma_dither_binary(img: GrayRaster, out: GrayRaster)
    requires
        img.wf(),
        is_dithered(out, img),
    ensures
        forall|i: int|
            0 <= i < out.data@.len() ==> (#[trigger] out.data@[i] == 0 || out.data@[i] == 255),
{
    lemma_dither_visited_binary(
        spec_dither_init(img.data@),
        img.width as int,
        img.height as int,
        img.data@.len() as int,
    );
    assert forall|i: int|
        0 <= i < out.data@.len() implies (out.data@[i] == 0 || out.data@[i] == 255) by {
        assert(out.data@[i] as int == spec_dither_out(spec_dither_final(img)[i]));
        assert(spec_dither_final(img)[i] == 0 || spec_dither_final(img)[i] == 4080);
    }
}

/// Dithering is a function of the input plate alone: two plates that both
/// satisfy the dither relation against the same source hold identical
/// bytes, which is what makes repeated runs reproducible.
pub proof fn lemma_dither_deterministic(img: GrayRaster, a: GrayRaster, b: GrayRaster)
    requires
        img.wf(),
        is_dithered(a, img),
        is_dithered(b, img),
    ensures
        a.data@ == b.data@,
{
    assert forall|i: int| 0 <= i < a.data@.len() implies a.data@[i] == b.data@[i] by {
        assert(a.data@[i] as int == spec_dither_out(spec_dither_final(img)[i]));
        assert(b.data@[i] as int == spec_dither_out(spec_dither_final(img)[i]));
    }
    assert(a.data@ =~= b.data@);
}

/// Every tone a threshold pass produces is either pure black or pure white,
/// whatever the input plate held.
pub proof fn lemma_threshold_binary(img: GrayRaster, out: GrayRaster)
    requires
        img.wf(),
        is_gray_point_map(out, img, GrayPointKind::Threshold),
    ensures
        forall|i: int| 0 <= i < out.data@.len() ==> (#[trigger] out.data@[i] == 0 || out.data@[i] == 255),
{
    assert forall|i: int|
        0 <= i < out.data@.len() implies (out.data@[i] == 0 || out.data@[i] == 255) by {
        assert(out.data@[i] as int == spec_gray_point_v(GrayPointKind::Threshold,
            img.data@[i] as int));
    }
}

/// Posterisation is idempotent: applying it to an already posterised plate
/// changes nothing, for any input plate.
pub proof fn lemma_posterize_idempotent(img: GrayRaster, once: GrayRaster, twice: GrayRaster)
    requires
        img.wf(),
        is_gray_point_map(once, img, GrayPointKind::Posterize),
        is_gray_point_map(twice, once, GrayPointKind::Posterize),
    ensures
        twice.data@ == once.data@,
{
    assert forall|i: int| 0 <= i < once.data@.len() implies twice.data@[i] == once.data@[i] by {
        let v = img.data@[i] as int;
        assert(((v / 85) * 85) / 85 == v / 85) by (nonlinear_arith)
            requires
                0 <= v <= 255,
        ;
    }
    assert(twice.data@ =~= once.data@);
}

/// What the chosen effect guarantees of its output plate.
pub open spec fn is_effect_applied(out: GrayRaster, img: GrayRaster, effect: ImageEffect) -> bool {
    match effect {
        ImageEffect::Original => {
            &&& out.wf()
            &&& out.width == img.width
            &&& out.height == img.height
            &&& out.data@ == img.data@
        },
        ImageEffect::Dither => is_dithered(out, img),
        ImageEffect::HalfTone => is_halftoned(out, img),
        ImageEffect::Threshold => is_gray_point_map(out, img, GrayPointKind::Threshold),
        ImageEffect::Posterize => is_gray_point_map(out, img, GrayPointKind::Posterize),
    }
}

/// Applies the requested per-plate effect. Every effect is total and
/// preserves the geometry of its input.
pub fn apply_effect(effect: &ImageEffect, image: &GrayRaster) -> (out: GrayRaster)
    requires
        image.wf(),
    ensures
        is_effect_applied(out, *image, *effect),
        out.wf(),
        out.width == image.width,
        out.height == image.height,
{
    match effect {
        ImageEffect::Original => Original.apply(image),
        ImageEffect::Dither => Dither.apply(image),
        ImageEffect::HalfTone => HalfTone.apply(image),
        ImageEffect::Threshold => Threshold.apply(image),
        ImageEffect::Posterize => Posterize.apply(image),
    }
}

} // verus!
