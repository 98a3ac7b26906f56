use vstd::prelude::*;
use crate::raster::{Raster, Rgba8, lemma_next_row, lemma_rc_index, lemma_rows_below};
use crate::state::ImageFilter;

verus! {

/// Clamps an integer into `[lo, hi]`.
pub open spec fn spec_clamp(v: int, lo: int, hi: int) -> int {
    if v < lo {
        lo
    } else if v > hi {
        hi
    } else {
        v
    }
}

/// The pointwise full-colour filters: each output pixel depends on the
/// matching input pixel alone.
#[derive(Clone, Copy, Debug, PartialEq, Eq, Structural)]
pub enum PointKind {
    Grayscale,
    Sepia,
    Invert,
    Brighten,
    Darken,
    Contrast,
}

/// The sRGB luminance of one pixel, as the integer mix
/// `(2126 r + 7152 g + 722 b) / 10000`; the weights sum to one, so a gray
/// input keeps its value.
pub open spec fn spec_luma(px: Rgba8) -> int {
    (2126 * px.r + 7152 * px.g + 722 * px.b) / 10000
}

/// One channel of the fixed sepia mixing matrix, truncated and capped at 255.
pub open spec fn spec_sepia_ch(wr: int, wg: int, wb: int, px: Rgba8) -> int {
    spec_clamp((wr * px.r + wg * px.g + wb * px.b) / 1000, 0, 255)
}

/// The fixed-magnitude contrast stretch of one channel value: the distance
/// from mid-gray is scaled by 25/16 (a contrast amount of 25), truncated,
/// and clamped to `[0, 255]`.
pub open spec fn spec_contrast_ch(v: int) -> int {
    spec_clamp(((2 * v - 255) * 25 + 4080) / 32, 0, 255)
}

/// What each pointwise filter does to one pixel. Alpha is preserved by all
/// of them.
pub open spec fn spec_point_pixel(kind: PointKind, px: Rgba8) -> Rgba8 {
    match kind {
        PointKind::Grayscale => Rgba8 {
            r: spec_luma(px) as u8,
            g: spec_luma(px) as u8,
            b: spec_luma(px) as u8,
            a: px.a,
        },
        PointKind::Sepia => Rgba8 {
            r: spec_sepia_ch(393, 769, 189, px) as u8,
            g: spec_sepia_ch(349, 686, 168, px) as u8,
            b: spec_sepia_ch(272, 534, 131, px) as u8,
            a: px.a,
        },
        PointKind::Invert => Rgba8 {
            r: (255 - px.r) as u8,
            g: (255 - px.g) as u8,
            b: (255 - px.b) as u8,
            a: px.a,
        },
        PointKind::Brighten => Rgba8 {
            r: spec_clamp(px.r + 30, 0, 255) as u8,
            g: spec_clamp(px.g + 30, 0, 255) as u8,
            b: spec_clamp(px.b + 30, 0, 255) as u8,
            a: px.a,
        },
        PointKind::Darken => Rgba8 {
            r: spec_clamp(px.r - 30, 0, 255) as u8,
            g: spec_clamp(px.g - 30, 0, 255) as u8,
            b: spec_clamp(px.b - 30, 0, 255) as u8,
            a: px.a,
        },
        PointKind::Contrast => Rgba8 {
            r: spec_contrast_ch(px.r as int) as u8,
            g: spec_contrast_ch(px.g as int) as u8,
            b: spec_contrast_ch(px.b as int) as u8,
            a: px.a,
        },
    }
}

/// `out` is `img` with `kind` applied to every pixel: same geometry,
/// pointwise transformed.
pub open spec fn is_point_map(out: Raster, img: Raster, kind: PointKind) -> bool {
    &&& out.wf()
    &&& out.width == img.width
    &&& out.height == img.height
    &&& forall|x: int, y: int|
        0 <= x < img.width && 0 <= y < img.height
            ==> out.spec_pixel(x, y) == spec_point_pixel(kind, #[trigger] img.spec_pixel(x, y))
}

/// The luminance of a byte pixel stays a byte.
proof fn lemma_luma_bounds(px: Rgba8)
    ensures
        0 <= spec_luma(px) <= 255,
{
    assert(0 <= (2126 * px.r + 7152 * px.g + 722 * px.b) / 10000 <= 255) by (nonlinear_arith);
}

/// Applies one pointwise filter to one pixel.
fn point_pixel(kind: PointKind, px: Rgba8) -> (r: Rgba8)
    ensures
        r == spec_point_pixel(kind, px),
{
    match kind {
        PointKind::Grayscale => {
            proof {
                lemma_luma_bounds(px);
            }
            let l = ((2126 * px.r as u32 + 7152 * px.g as u32 + 722 * px.b as u32) / 10000) as u8;
            Rgba8 { r: l, g: l, b: l, a: px.a }
        },
        PointKind::Sepia => {
            let r0 = (393 * px.r as u32 + 769 * px.g as u32 + 189 * px.b as u32) / 1000;
            let g0 = (349 * px.r as u32 + 686 * px.g as u32 + 168 * px.b as u32) / 1000;
            let b0 = (272 * px.r as u32 + 534 * px.g as u32 + 131 * px.b as u32) / 1000;
            let r1 = if r0 > 255 { 255u32 } else { r0 };
            let g1 = if g0 > 255 { 255u32 } else { g0 };
            let b1 = if b0 > 255 { 255u32 } else { b0 };
            Rgba8 { r: r1 as u8, g: g1 as u8, b: b1 as u8, a: px.a }
        },
        PointKind::Invert => Rgba8 {
            r: 255 - px.r,
            g: 255 - px.g,
            b: 255 - px.b,
            a: px.a,
        },
        PointKind::Brighten => {
            let r0 = px.r as u32 + 30;
            let g0 = px.g as u32 + 30;
            let b0 = px.b as u32 + 30;
            Rgba8 {
                r: if r0 > 255 { 255 } else { r0 as u8 },
                g: if g0 > 255 { 255 } else { g0 as u8 },
                b: if b0 > 255 { 255 } else { b0 as u8 },
                a: px.a,
            }
        },
        PointKind::Darken => Rgba8 {
            r: if px.r >= 30 { px.r - 30 } else { 0 },
            g: if px.g >= 30 { px.g - 30 } else { 0 },
            b: if px.b >= 30 { px.b - 30 } else { 0 },
            a: px.a,
        },
        PointKind::Contrast => {
            let r0 = (2 * px.r as i32 - 255) * 25 + 4080;
            let g0 = (2 * px.g as i32 - 255) * 25 + 4080;
            let b0 = (2 * px.b as i32 - 255) * 25 + 4080;
            let rc = if r0 < 0 { 0 } else if r0 / 32 > 255 { 255 } else { r0 / 32 };
            let gc = if g0 < 0 { 0 } else if g0 / 32 > 255 { 255 } else { g0 / 32 };
            let bc = if b0 < 0 { 0 } else if b0 / 32 > 255 { 255 } else { b0 / 32 };
            Rgba8 { r: rc as u8, g: gc as u8, b: bc as u8, a: px.a }
        },
    }
}

/// Applies one pointwise filter to a whole raster.
fn point_map(img: &Raster, kind: PointKind) -> (out: Raster)
    requires
        img.wf(),
    ensures
        is_point_map(out, *img, kind),
{
    let w = img.width;
    let h = img.height;
    let mut data: Vec<u8> = Vec::new();
    let mut y: usize = 0;
    while y < h
        invariant
            img.wf(),
            w == img.width,
            h == img.height,
            y <= h,
            data.len() == 4 * (y * w),
            forall|yy: int, xx: int|
                0 <= yy < y && 0 <= xx < w
                    ==> crate::raster::spec_pixel_of(data@, w as int, xx, yy)
                        == spec_point_pixel(kind, #[trigger] img.spec_pixel(xx, yy)),
        decreases h - y,
    {
        let mut x: usize = 0;
        while x < w
            invariant
                img.wf(),
                w == img.width,
                h == img.height,
                y < h,
                x <= w,
                data.len() == 4 * (y * w + x),
                forall|yy: int, xx: int|
                    0 <= yy < y && 0 <= xx < w
                        ==> crate::raster::spec_pixel_of(data@, w as int, xx, yy)
                            == spec_point_pixel(kind, #[trigger] img.spec_pixel(xx, yy)),
                forall|xx: int|
                    0 <= xx < x
                        ==> crate::raster::spec_pixel_of(data@, w as int, xx, y as int)
                            == spec_point_pixel(kind, #[trigger] img.spec_pixel(xx, y as int)),
            decreases w - x,
        {
            proof {
                lemma_rc_index(x as int, y as int, w as int, h as int);
                lemma_rows_below(y as int, w as int);
            }
            let px = point_pixel(kind, img.get_pixel(x, y));
            data.push(px.r);
            data.push(px.g);
            data.push(px.b);
            data.push(px.a);
            x += 1;
        }
        proof {
            lemma_next_row(y as int, w as int);
        }
        y += 1;
    }
    proof {
        assert((h as int) * (w as int) == (w as int) * (h as int)) by (nonlinear_arith);
        lemma_rows_below(h as int, w as int);
    }
    Raster { width: w, height: h, data }
}

/// Desaturates to luminance; every colour channel becomes `spec_luma`.
pub struct Grayscale;

/// Applies the fixed 3x3 sepia colour-mixing matrix, capped at 255.
pub struct Sepia;

/// Inverts each colour channel (`255 - value`); alpha is preserved.
pub struct Invert;

/// Coarsens the image to 10-pixel blocks by nearest-neighbour resampling
/// down and back up.
pub struct Pixelate;

/// Adds 30 to each colour channel, saturating at 255.
pub struct Brighten;

/// Subtracts 30 from each colour channel, saturating at 0.
pub struct Darken;

/// Stretches contrast away from mid-gray by a fixed amount of 25.
pub struct Contrast;

/// Gaussian blur with a standard deviation of 3.
pub struct Blur;

/// Sharpens with the 3x3 unsharp kernel `[-1,...,9,...,-1]`.
pub struct Sharpen;

impl Grayscale {
    /// Luminance desaturation of every pixel.
    pub fn apply(&self, image: &Raster) -> (out: Raster)
        requires
            image.wf(),
        ensures
            is_point_map(out, *image, PointKind::Grayscale),
    {
        point_map(image, PointKind::Grayscale)
    }
}

impl Sepia {
    /// The fixed sepia matrix applied to every pixel.
    pub fn apply(&self, image: &Raster) -> (out: Raster)
        requires
            image.wf(),
        ensures
            is_point_map(out, *image, PointKind::Sepia),
    {
        point_map(image, PointKind::Sepia)
    }
}

impl Invert {
    /// Channel inversion of every pixel.
    pub fn apply(&self, image: &Raster) -> (out: Raster)
        requires
            image.wf(),
        ensures
            is_point_map(out, *image, PointKind::Invert),
    {
        point_map(image, PointKind::Invert)
    }
}

impl Brighten {
    /// Saturating brightening of every pixel.
    pub fn apply(&self, image: &Raster) -> (out: Raster)
        requires
            image.wf(),
        ensures
            is_point_map(out, *image, PointKind::Brighten),
    {
        point_map(image, PointKind::Brighten)
    }
}

impl Darken {
    /// Saturating darkening of every pixel.
    pub fn apply(&self, image: &Raster) -> (out: Raster)
        requires
            image.wf(),
        ensures
            is_point_map(out, *image, PointKind::Darken),
    {
        point_map(image, PointKind::Darken)
    }
}

impl Contrast {
    /// The fixed contrast stretch of every pixel.
    pub fn apply(&self, image: &Raster) -> (out: Raster)
        requires
            image.wf(),
        ensures
            is_point_map(out, *image, PointKind::Contrast),
    {
        point_map(image, PointKind::Contrast)
    }
}

/// Nearest-neighbour resampling of position `i` out of `n` positions onto a
/// grid of `m` positions: the centre of cell `i` mapped proportionally.
pub open spec fn spec_center_map(i: int, n: int, m: int) -> int {
    (2 * i + 1) * m / (2 * n)
}

/// The resampled position lands inside the target grid.
proof fn lemma_center_map(i: int, n: int, m: int)
    requires
        0 <= i < n,
        1 <= m,
    ensures
        0 <= spec_center_map(i, n, m) < m,
{
    assert(0 <= (2 * i + 1) * m / (2 * n) < m) by (nonlinear_arith)
        requires
            0 <= i < n,
            1 <= m,
    ;
}

/// The source position one pixelated output position reads: the position is
/// resampled down to a grid a tenth as fine (at least one cell) and back up.
pub open spec fn spec_pixelate_src(i: int, n: int) -> int {
    let m = if n / 10 >= 1 {
        n / 10
    } else {
        1
    };
    spec_center_map(spec_center_map(i, n, m), m, n)
}

/// `out` is `img` pixelated with block factor 10: same geometry, each output
/// pixel read from the block-resampled source position.
pub open spec fn is_pixelated(out: Raster, img: Raster) -> bool {
    &&& out.wf()
    &&& out.width == img.width
    &&& out.height == img.height
    &&& forall|x: int, y: int|
        0 <= x < img.width && 0 <= y < img.height
            ==> #[trigger] out.spec_pixel(x, y) == img.spec_pixel(
                spec_pixelate_src(x, img.width as int),
                spec_pixelate_src(y, img.height as int),
            )
}

/// Computes the nearest-neighbour resampled position.
fn center_map(i: usize, n: usize, m: usize) -> (r: usize)
    requires
        i < n,
        1 <= m,
        n <= 0x4000_0000_0000_0000,
        m <= 0x4000_0000_0000_0000,
    ensures
        r as int == spec_center_map(i as int, n as int, m as int),
        r < m,
{
    proof {
        lemma_center_map(i as int, n as int, m as int);
        assert((2 * (i as int) + 1) * (m as int) <= (2 * (n as int)) * (m as int))
            by (nonlinear_arith)
            requires
                0 <= i < n,
                0 <= m,
        ;
        assert((2 * (n as int)) * (m as int) <= 0x8000_0000_0000_0000 * 0x4000_0000_0000_0000)
            by (nonlinear_arith)
            requires
                n <= 0x4000_0000_0000_0000 && m <= 0x4000_0000_0000_0000 && 0 <= n && 0 <= m,
        ;
    }
    (((2 * (i as u128) + 1) * (m as u128)) / (2 * (n as u128))) as usize
}

/// Computes the block-resampled source position for one output position.
fn pixelate_src(i: usize, n: usize) -> (r: usize)
    requires
        i < n,
        n <= 0x4000_0000_0000_0000,
    ensures
        r as int == spec_pixelate_src(i as int, n as int),
        r < n,
{
    let m = if n / 10 >= 1 { n / 10 } else { 1 };
    let down = center_map(i, n, m);
    center_map(down, m, n)
}

/// A raster dimension is bounded by a quarter of the address space, because
/// four bytes per pixel fit in one allocation.
proof fn lemma_dim_bound(img: Raster)
    requires
        img.wf(),
    ensures
        img.width <= 0x4000_0000_0000_0000,
        img.height <= 0x4000_0000_0000_0000,
{
    assert(img.width * img.height >= img.width * 1 && img.width * img.height >= 1 * img.height)
        by (nonlinear_arith)
        requires
            img.width >= 1 && img.height >= 1,
    ;
}

impl Pixelate {
    /// Nearest-neighbour pixelation with block factor 10.
    pub fn apply(&self, image: &Raster) -> (out: Raster)
        requires
            image.wf(),
        ensures
            is_pixelated(out, *image),
    {
        let w = image.width;
        let h = image.height;
        proof {
            lemma_dim_bound(*image);
        }
        let mut data: Vec<u8> = Vec::new();
        let mut y: usize = 0;
        while y < h
            invariant
                image.wf(),
                w == image.width,
                h == image.height,
                w <= 0x4000_0000_0000_0000,
                h <= 0x4000_0000_0000_0000,
                y <= h,
                data.len() == 4 * (y * w),
                forall|yy: int, xx: int|
                    0 <= yy < y && 0 <= xx < w
                        ==> crate::raster::spec_pixel_of(data@, w as int, xx, yy)
                            == #[trigger] image.spec_pixel(
                                spec_pixelate_src(xx, w as int),
                                spec_pixelate_src(yy, h as int),
                            ),
            decreases h - y,
        {
            let sy = pixelate_src(y, h);
            let mut x: usize = 0;
            while x < w
                invariant
                    image.wf(),
                    w == image.width,
                    h == image.height,
                    w <= 0x4000_0000_0000_0000,
                    h <= 0x4000_0000_0000_0000,
                    y < h,
                    x <= w,
                    sy < h,
                    sy as int == spec_pixelate_src(y as int, h as int),
                    data.len() == 4 * (y * w + x),
                    forall|yy: int, xx: int|
                        0 <= yy < y && 0 <= xx < w
                            ==> crate::raster::spec_pixel_of(data@, w as int, xx, yy)
                                == #[trigger] image.spec_pixel(
                                    spec_pixelate_src(xx, w as int),
                                    spec_pixelate_src(yy, h as int),
                                ),
                    forall|xx: int|
                        0 <= xx < x
                            ==> crate::raster::spec_pixel_of(data@, w as int, xx, y as int)
                                == #[trigger] image.spec_pixel(
                                    spec_pixelate_src(xx, w as int),
                                    spec_pixelate_src(y as int, h as int),
                                ),
                decreases w - x,
            {
                proof {
                    lemma_rc_index(x as int, y as int, w as int, h as int);
                    lemma_rows_below(y as int, w as int);
                    lemma_dim_bound(*image);
                }
                let sx = pixelate_src(x, w);
                let px = image.get_pixel(sx, sy);
                data.push(px.r);
                data.push(px.g);
                data.push(px.b);
                data.push(px.a);
                x += 1;
            }
            proof {
                lemma_next_row(y as int, w as int);
            }
            y += 1;
        }
        proof {
            assert((h as int) * (w as int) == (w as int) * (h as int)) by (nonlinear_arith);
            lemma_rows_below(h as int, w as int);
        }
        Raster { width: w, height: h, data }
    }
}

/// Channel `c` (0 red, 1 green, 2 blue, 3 alpha) of the pixel at the given
/// coordinates, clamped to the image border (edge replication).
pub open spec fn spec_ch_clamped(img: Raster, x: int, y: int, c: int) -> int {
    let px = img.spec_pixel(
        spec_clamp(x, 0, img.width - 1),
        spec_clamp(y, 0, img.height - 1),
    );
    if c == 0 {
        px.r as int
    } else if c == 1 {
        px.g as int
    } else if c == 2 {
        px.b as int
    } else {
        px.a as int
    }
}

/// One colour channel of the unsharp 3x3 convolution at a pixel: nine times
/// the centre minus each of the eight border-replicated neighbours, clamped
/// into `[0, 255]`.
pub open spec fn spec_sharpen_ch(img: Raster, x: int, y: int, c: int) -> int {
    spec_clamp(
        9 * spec_ch_clamped(img, x, y, c)
            - spec_ch_clamped(img, x - 1, y - 1, c)
            - spec_ch_clamped(img, x, y - 1, c)
            - spec_ch_clamped(img, x + 1, y - 1, c)
            - spec_ch_clamped(img, x - 1, y, c)
            - spec_ch_clamped(img, x + 1, y, c)
            - spec_ch_clamped(img, x - 1, y + 1, c)
            - spec_ch_clamped(img, x, y + 1, c)
            - spec_ch_clamped(img, x + 1, y + 1, c),
        0,
        255,
    )
}

/// The sharpened pixel: each colour channel convolved, alpha preserved.
pub open spec fn spec_sharpen_pixel(img: Raster, x: int, y: int) -> Rgba8 {
    Rgba8 {
        r: spec_sharpen_ch(img, x, y, 0) as u8,
        g: spec_sharpen_ch(img, x, y, 1) as u8,
        b: spec_sharpen_ch(img, x, y, 2) as u8,
        a: img.spec_pixel(x, y).a,
    }
}

/// `out` is `img` sharpened: same geometry, every pixel convolved.
pub open spec fn is_sharpened(out: Raster, img: Raster) -> bool {
    &&& out.wf()
    &&& out.width == img.width
    &&& out.height == img.height
    &&& forall|x: int, y: int|
        0 <= x < img.width && 0 <= y < img.height
            ==> #[trigger] out.spec_pixel(x, y) == spec_sharpen_pixel(img, x, y)
}

/// Reads a border-replicated channel value.
fn ch_clamped(img: &Raster, x: usize, y: usize, dx: i8, dy: i8, c: usize) -> (v: u8)
    requires
        img.wf(),
        x < img.width,
        y < img.height,
        -1 <= dx <= 1,
        -1 <= dy <= 1,
        c < 4,
    ensures
        v as int == spec_ch_clamped(*img, x + dx, y + dy, c as int),
{
    let xs = if dx < 0 {
        if x == 0 { 0 } else { x - 1 }
    } else if dx > 0 {
        if x + 1 < img.width { x + 1 } else { img.width - 1 }
    } else {
        x
    };
    let ys = if dy < 0 {
        if y == 0 { 0 } else { y - 1 }
    } else if dy > 0 {
        if y + 1 < img.height { y + 1 } else { img.height - 1 }
    } else {
        y
    };
    let px = img.get_pixel(xs, ys);
    if c == 0 {
        px.r
    } else if c == 1 {
        px.g
    } else if c == 2 {
        px.b
    } else {
        px.a
    }
}

/// Convolves one colour channel of one pixel with the unsharp kernel.
fn sharpen_ch(img: &Raster, x: usize, y: usize, c: usize) -> (v: u8)
    requires
        img.wf(),
        x < img.width,
        y < img.height,
        c < 3,
    ensures
        v as int == spec_sharpen_ch(*img, x as int, y as int, c as int),
{
    let sum: i32 = 9 * ch_clamped(img, x, y, 0, 0, c) as i32
        - ch_clamped(img, x, y, -1, -1, c) as i32
        - ch_clamped(img, x, y, 0, -1, c) as i32
        - ch_clamped(img, x, y, 1, -1, c) as i32
        - ch_clamped(img, x, y, -1, 0, c) as i32
        - ch_clamped(img, x, y, 1, 0, c) as i32
        - ch_clamped(img, x, y, -1, 1, c) as i32
        - ch_clamped(img, x, y, 0, 1, c) as i32
        - ch_clamped(img, x, y, 1, 1, c) as i32;
    if sum < 0 {
        0
    } else if sum > 255 {
        255
    } else {
        sum as u8
    }
}

impl Sharpen {
    /// The 3x3 unsharp convolution over the whole raster.
    pub fn apply(&self, image: &Raster) -> (out: Raster)
        requires
            image.wf(),
        ensures
            is_sharpened(out, *image),
    {
        let w = image.width;
        let h = image.height;
        let mut data: Vec<u8> = Vec::new();
        let mut y: usize = 0;
        while y < h
            invariant
                image.wf(),
                w == image.width,
                h == image.height,
                y <= h,
                data.len() == 4 * (y * w),
                forall|yy: int, xx: int|
                    0 <= yy < y && 0 <= xx < w
                        ==> crate::raster::spec_pixel_of(data@, w as int, xx, yy)
                            == #[trigger] spec_sharpen_pixel(*image, xx, yy),
            decreases h - y,
        {
            let mut x: usize = 0;
            while x < w
                invariant
                    image.wf(),
                    w == image.width,
                    h == image.height,
                    y < h,
                    x <= w,
                    data.len() == 4 * (y * w + x),
                    forall|yy: int, xx: int|
                        0 <= yy < y && 0 <= xx < w
                            ==> crate::raster::spec_pixel_of(data@, w as int, xx, yy)
                                == #[trigger] spec_sharpen_pixel(*image, xx, yy),
                    forall|xx: int|
                        0 <= xx < x
                            ==> crate::raster::spec_pixel_of(data@, w as int, xx, y as int)
                                == #[trigger] spec_sharpen_pixel(*image, xx, y as int),
                decreases w - x,
            {
                proof {
                    lemma_rc_index(x as int, y as int, w as int, h as int);
                    lemma_rows_below(y as int, w as int);
                }
                let r = sharpen_ch(image, x, y, 0);
                let g = sharpen_ch(image, x, y, 1);
                let b = sharpen_ch(image, x, y, 2);
                let a = image.get_pixel(x, y).a;
                data.push(r);
                data.push(g);
                data.push(b);
                data.push(a);
                x += 1;
            }
            proof {
                lemma_next_row(y as int, w as int);
            }
            y += 1;
        }
        proof {
            assert((h as int) * (w as int) == (w as int) * (h as int)) by (nonlinear_arith);
            lemma_rows_below(h as int, w as int);
        }
        Raster { width: w, height: h, data }
    }
}

/// The Gaussian weight at offset `d` for a standard deviation of 3, scaled
/// by 2^16 and rounded to the nearest integer; zero outside the nine-pixel
/// radius.
pub open spec fn spec_gauss_w(d: int) -> int {
    let a = if d < 0 {
        -d
    } else {
        d
    };
    if a == 0 {
        65536
    } else if a == 1 {
        61995
    } else if a == 2 {
        52477
    } else if a == 3 {
        39750
    } else if a == 4 {
        26943
    } else if a == 5 {
        16342
    } else if a == 6 {
        8869
    } else if a == 7 {
        4308
    } else if a == 8 {
        1872
    } else if a == 9 {
        728
    } else {
        0
    }
}

/// The sum of the Gaussian weights from offset `d` through 9; from -9 it is
/// the full kernel weight, 492104.
pub open spec fn spec_gauss_wsum(d: int) -> int
    decreases 10 - d,
        when d <= 10
{
    if d > 9 {
        0
    } else {
        spec_gauss_w(d) + spec_gauss_wsum(d + 1)
    }
}

/// The weighted sum, over offsets `d` through 9, of channel `c` of the
/// border-replicated pixels of the row `y` around column `x`.
pub open spec fn spec_hblur_acc(img: Raster, x: int, y: int, c: int, d: int) -> int
    decreases 10 - d,
        when d <= 10
{
    if d > 9 {
        0
    } else {
        spec_gauss_w(d) * spec_ch_clamped(img, x + d, y, c) + spec_hblur_acc(img, x, y, c, d + 1)
    }
}

/// One channel after the horizontal Gaussian pass, rounded to a byte.
pub open spec fn spec_hblur_ch(img: Raster, x: int, y: int, c: int) -> int {
    (spec_hblur_acc(img, x, y, c, -9) + 246052) / 492104
}

/// The weighted sum, over offsets `d` through 9, of horizontally blurred
/// channel values of the column `x` around row `y` (border-replicated).
pub open spec fn spec_vblur_acc(img: Raster, x: int, y: int, c: int, d: int) -> int
    decreases 10 - d,
        when d <= 10
{
    if d > 9 {
        0
    } else {
        spec_gauss_w(d) * spec_hblur_ch(img, x, spec_clamp(y + d, 0, img.height - 1), c)
            + spec_vblur_acc(img, x, y, c, d + 1)
    }
}

/// One channel after both Gaussian passes, rounded to a byte.
pub open spec fn spec_blur_ch(img: Raster, x: int, y: int, c: int) -> int {
    (spec_vblur_acc(img, x, y, c, -9) + 246052) / 492104
}

/// The fully blurred pixel; all four channels are blurred alike.
pub open spec fn spec_blur_pixel(img: Raster, x: int, y: int) -> Rgba8 {
    Rgba8 {
        r: spec_blur_ch(img, x, y, 0) as u8,
        g: spec_blur_ch(img, x, y, 1) as u8,
        b: spec_blur_ch(img, x, y, 2) as u8,
        a: spec_blur_ch(img, x, y, 3) as u8,
    }
}

/// `out` is `img` blurred by the separable Gaussian: same geometry, every
/// pixel the result of the horizontal pass followed by the vertical pass.
pub open spec fn is_blurred(out: Raster, img: Raster) -> bool {
    &&& out.wf()
    &&& out.width == img.width
    &&& out.height == img.height
    &&& forall|x: int, y: int|
        0 <= x < img.width && 0 <= y < img.height
            ==> #[trigger] out.spec_pixel(x, y) == spec_blur_pixel(img, x, y)
}

/// The intermediate raster of the horizontal pass, pointwise.
spec fn is_hblurred(mid: Raster, img: Raster) -> bool {
    &&& mid.wf()
    &&& mid.width == img.width
    &&& mid.height == img.height
    &&& forall|x: int, y: int|
        0 <= x < img.width && 0 <= y < img.height
            ==> #[trigger] mid.spec_pixel(x, y) == (Rgba8 {
                r: spec_hblur_ch(img, x, y, 0) as u8,
                g: spec_hblur_ch(img, x, y, 1) as u8,
                b: spec_hblur_ch(img, x, y, 2) as u8,
                a: spec_hblur_ch(img, x, y, 3) as u8,
            })
}

/// Every Gaussian weight is non-negative and at most 2^16.
proof fn lemma_gauss_w_bounds(d: int)
    ensures
        0 <= spec_gauss_w(d) <= 65536,
{
}

/// The suffix weight sums are non-negative and bounded by the full kernel
/// weight; from -9 the sum is exactly 492104.
proof fn lemma_gauss_wsum_bounds(d: int)
    requires
        -9 <= d <= 10,
    ensures
        0 <= spec_gauss_wsum(d) <= 492104,
    decreases 10 - d,
{
    if d > 9 {
    } else {
        lemma_gauss_wsum_bounds(d + 1);
        lemma_gauss_w_bounds(d);
        lemma_gauss_total();
        assert(spec_gauss_wsum(d) <= spec_gauss_wsum(-9)) by {
            lemma_gauss_wsum_prefix(-9, d);
        }
    }
}

/// The full kernel weight: the weights from -9 through 9 sum to 492104.
proof fn lemma_gauss_total()
    ensures
        spec_gauss_wsum(-9) == 492104,
{
    reveal_with_fuel(spec_gauss_wsum, 21);
}

/// A suffix sum is bounded by any earlier suffix sum.
proof fn lemma_gauss_wsum_prefix(a: int, b: int)
    requires
        -9 <= a <= b <= 10,
    ensures
        spec_gauss_wsum(b) <= spec_gauss_wsum(a),
    decreases b - a,
{
    if a < b {
        lemma_gauss_w_bounds(a);
        lemma_gauss_wsum_prefix(a + 1, b);
    }
}

/// The horizontal accumulator is non-negative and bounded by 255 times the
/// remaining kernel weight.
proof fn lemma_hblur_acc_bounds(img: Raster, x: int, y: int, c: int, d: int)
    requires
        img.wf(),
        -9 <= d <= 10,
    ensures
        0 <= spec_hblur_acc(img, x, y, c, d) <= 255 * spec_gauss_wsum(d),
    decreases 10 - d,
{
    if d > 9 {
    } else {
        lemma_hblur_acc_bounds(img, x, y, c, d + 1);
        lemma_gauss_w_bounds(d);
        let wd = spec_gauss_w(d);
        let ch = spec_ch_clamped(img, x + d, y, c);
        assert(0 <= wd * ch <= wd * 255) by (nonlinear_arith)
            requires
                0 <= wd,
                0 <= ch <= 255,
        ;
        assert(255 * spec_gauss_wsum(d) == 255 * wd + 255 * spec_gauss_wsum(d + 1))
            by (nonlinear_arith)
            requires
                spec_gauss_wsum(d) == wd + spec_gauss_wsum(d + 1),
        ;
    }
}

/// A horizontally blurred channel value is a byte.
proof fn lemma_hblur_ch_bounds(img: Raster, x: int, y: int, c: int)
    requires
        img.wf(),
    ensures
        0 <= spec_hblur_ch(img, x, y, c) <= 255,
{
    lemma_hblur_acc_bounds(img, x, y, c, -9);
    lemma_gauss_total();
}

/// The vertical accumulator is non-negative and bounded by 255 times the
/// remaining kernel weight.
proof fn lemma_vblur_acc_bounds(img: Raster, x: int, y: int, c: int, d: int)
    requires
        img.wf(),
        -9 <= d <= 10,
    ensures
        0 <= spec_vblur_acc(img, x, y, c, d) <= 255 * spec_gauss_wsum(d),
    decreases 10 - d,
{
    if d > 9 {
    } else {
        lemma_vblur_acc_bounds(img, x, y, c, d + 1);
        lemma_gauss_w_bounds(d);
        lemma_hblur_ch_bounds(img, x, spec_clamp(y + d, 0, img.height - 1), c);
        let wd = spec_gauss_w(d);
        let ch = spec_hblur_ch(img, x, spec_clamp(y + d, 0, img.height - 1), c);
        assert(0 <= wd * ch <= wd * 255) by (nonlinear_arith)
            requires
                0 <= wd,
                0 <= ch <= 255,
        ;
        assert(255 * spec_gauss_wsum(d) == 255 * wd + 255 * spec_gauss_wsum(d + 1))
            by (nonlinear_arith)
            requires
                spec_gauss_wsum(d) == wd + spec_gauss_wsum(d + 1),
        ;
    }
}

/// A fully blurred channel value is a byte.
proof fn lemma_blur_ch_bounds(img: Raster, x: int, y: int, c: int)
    requires
        img.wf(),
    ensures
        0 <= spec_blur_ch(img, x, y, c) <= 255,
{
    lemma_vblur_acc_bounds(img, x, y, c, -9);
    lemma_gauss_total();
}

/// The kernel weight at tap `dd` (taps number 0 through 18, centred at 9).
fn gauss_weight(dd: usize) -> (w: u64)
    requires
        dd < 19,
    ensures
        w as int == spec_gauss_w(dd as int - 9),
{
    let a = if dd < 9 { 9 - dd } else { dd - 9 };
    if a == 0 {
        65536
    } else if a == 1 {
        61995
    } else if a == 2 {
        52477
    } else if a == 3 {
        39750
    } else if a == 4 {
        26943
    } else if a == 5 {
        16342
    } else if a == 6 {
        8869
    } else if a == 7 {
        4308
    } else if a == 8 {
        1872
    } else {
        728
    }
}

/// A coordinate offset by tap `dd`, clamped to `[0, n-1]`.
fn tap_coord(i: usize, dd: usize, n: usize) -> (r: usize)
    requires
        i < n,
        dd < 19,
    ensures
        r as int == spec_clamp(i + dd - 9, 0, n as int - 1),
        r < n,
{
    if dd < 9 {
        let delta = 9 - dd;
        if i >= delta {
            i - delta
        } else {
            0
        }
    } else {
        let delta = dd - 9;
        if delta < n && i < n - delta {
            i + delta
        } else {
            n - 1
        }
    }
}

/// One channel of the horizontal Gaussian pass at one pixel.
fn hblur_ch(img: &Raster, x: usize, y: usize, c: usize) -> (v: u8)
    requires
        img.wf(),
        x < img.width,
        y < img.height,
        c < 4,
    ensures
        v as int == spec_hblur_ch(*img, x as int, y as int, c as int),
{
    let ghost gx = x as int;
    let ghost gy = y as int;
    let ghost gc = c as int;
    let mut acc: u64 = 0;
    let mut dd: usize = 0;
    while dd < 19
        invariant
            img.wf(),
            x < img.width,
            y < img.height,
            c < 4,
            dd <= 19,
            gx == x as int,
            gy == y as int,
            gc == c as int,
            acc as int == spec_hblur_acc(*img, gx, gy, gc, -9)
                - spec_hblur_acc(*img, gx, gy, gc, dd as int - 9),
            acc as int <= 255 * 492104,
        decreases 19 - dd,
    {
        proof {
            lemma_hblur_acc_bounds(*img, gx, gy, gc, dd as int - 9);
            lemma_hblur_acc_bounds(*img, gx, gy, gc, dd as int - 8);
            lemma_hblur_acc_bounds(*img, gx, gy, gc, -9);
            lemma_gauss_wsum_bounds(dd as int - 9);
            lemma_gauss_total();
        }
        let xs = tap_coord(x, dd, img.width);
        let px = img.get_pixel(xs, y);
        let ch: u64 = if c == 0 {
            px.r as u64
        } else if c == 1 {
            px.g as u64
        } else if c == 2 {
            px.b as u64
        } else {
            px.a as u64
        };
        let w = gauss_weight(dd);
        proof {
            let wd = spec_gauss_w(dd as int - 9);
            let sample = spec_ch_clamped(*img, gx + (dd as int - 9), gy, gc);
            assert(0 <= wd * sample <= wd * 255) by (nonlinear_arith)
                requires
                    0 <= wd,
                    0 <= sample <= 255,
            ;
        }
        acc = acc + w * ch;
        dd += 1;
    }
    proof {
        lemma_hblur_ch_bounds(*img, gx, gy, gc);
    }
    ((acc + 246052) / 492104) as u8
}

/// One channel of the vertical Gaussian pass at one pixel, read from the
/// horizontally blurred intermediate raster.
fn vblur_ch(mid: &Raster, Ghost(img): Ghost<Raster>, x: usize, y: usize, c: usize) -> (v: u8)
    requires
        is_hblurred(*mid, img),
        img.wf(),
        x < img.width,
        y < img.height,
        c < 4,
    ensures
        v as int == spec_blur_ch(img, x as int, y as int, c as int),
{
    let ghost gx = x as int;
    let ghost gy = y as int;
    let ghost gc = c as int;
    let mut acc: u64 = 0;
    let mut dd: usize = 0;
    while dd < 19
        invariant
            is_hblurred(*mid, img),
            img.wf(),
            x < img.width,
            y < img.height,
            c < 4,
            dd <= 19,
            gx == x as int,
            gy == y as int,
            gc == c as int,
            acc as int == spec_vblur_acc(img, gx, gy, gc, -9)
                - spec_vblur_acc(img, gx, gy, gc, dd as int - 9),
            acc as int <= 255 * 492104,
        decreases 19 - dd,
    {
        proof {
            lemma_vblur_acc_bounds(img, gx, gy, gc, dd as int - 9);
            lemma_vblur_acc_bounds(img, gx, gy, gc, dd as int - 8);
            lemma_vblur_acc_bounds(img, gx, gy, gc, -9);
            lemma_gauss_wsum_bounds(dd as int - 9);
            lemma_gauss_total();
        }
        let ys = tap_coord(y, dd, mid.height);
        let px = mid.get_pixel(x, ys);
        let ch: u64 = if c == 0 {
            px.r as u64
        } else if c == 1 {
            px.g as u64
        } else if c == 2 {
            px.b as u64
        } else {
            px.a as u64
        };
        let w = gauss_weight(dd);
        proof {
            let wd = spec_gauss_w(dd as int - 9);
            let sample = spec_hblur_ch(img, gx, spec_clamp(gy + (dd as int - 9), 0,
                img.height - 1), gc);
            lemma_hblur_ch_bounds(img, gx, spec_clamp(gy + (dd as int - 9), 0,
                img.height - 1), gc);
            assert(0 <= wd * sample <= wd * 255) by (nonlinear_arith)
                requires
                    0 <= wd,
                    0 <= sample <= 255,
            ;
        }
        acc = acc + w * ch;
        dd += 1;
    }
    proof {
        lemma_blur_ch_bounds(img, gx, gy, gc);
    }
    ((acc + 246052) / 492104) as u8
}

/// Runs the horizontal Gaussian pass over the whole raster.
fn hblur_pass(img: &Raster) -> (mid: Raster)
    requires
        img.wf(),
    ensures
        is_hblurred(mid, *img),
{
    let w = img.width;
    let h = img.height;
    let mut data: Vec<u8> = Vec::new();
    let mut y: usize = 0;
    while y < h
        invariant
            img.wf(),
            w == img.width,
            h == img.height,
            y <= h,
            data.len() == 4 * (y * w),
            forall|yy: int, xx: int|
                0 <= yy < y && 0 <= xx < w
                    ==> crate::raster::spec_pixel_of(data@, w as int, xx, yy) == (Rgba8 {
                        r: spec_hblur_ch(*img, xx, yy, 0) as u8,
                        g: spec_hblur_ch(*img, xx, yy, 1) as u8,
                        b: spec_hblur_ch(*img, xx, yy, 2) as u8,
                        a: #[trigger] spec_hblur_ch(*img, xx, yy, 3) as u8,
                    }),
        decreases h - y,
    {
        let mut x: usize = 0;
        while x < w
            invariant
                img.wf(),
                w == img.width,
                h == img.height,
                y < h,
                x <= w,
                data.len() == 4 * (y * w + x),
                forall|yy: int, xx: int|
                    0 <= yy < y && 0 <= xx < w
                        ==> crate::raster::spec_pixel_of(data@, w as int, xx, yy) == (Rgba8 {
                            r: spec_hblur_ch(*img, xx, yy, 0) as u8,
                            g: spec_hblur_ch(*img, xx, yy, 1) as u8,
                            b: spec_hblur_ch(*img, xx, yy, 2) as u8,
                            a: #[trigger] spec_hblur_ch(*img, xx, yy, 3) as u8,
                        }),
                forall|xx: int|
                    0 <= xx < x
                        ==> crate::raster::spec_pixel_of(data@, w as int, xx, y as int) == (Rgba8 {
                            r: spec_hblur_ch(*img, xx, y as int, 0) as u8,
                            g: spec_hblur_ch(*img, xx, y as int, 1) as u8,
                            b: spec_hblur_ch(*img, xx, y as int, 2) as u8,
                            a: #[trigger] spec_hblur_ch(*img, xx, y as int, 3) as u8,
                        }),
            decreases w - x,
        {
            proof {
                lemma_rc_index(x as int, y as int, w as int, h as int);
                lemma_rows_below(y as int, w as int);
            }
            let r = hblur_ch(img, x, y, 0);
            let g = hblur_ch(img, x, y, 1);
            let b = hblur_ch(img, x, y, 2);
            let a = hblur_ch(img, x, y, 3);
            data.push(r);
            data.push(g);
            data.push(b);
            data.push(a);
            x += 1;
        }
        proof {
            lemma_next_row(y as int, w as int);
        }
        y += 1;
    }
    proof {
        assert((h as int) * (w as int) == (w as int) * (h as int)) by (nonlinear_arith);
        lemma_rows_below(h as int, w as int);
    }
    Raster { width: w, height: h, data }
}

impl Blur {
    /// The separable Gaussian blur: a horizontal pass, then a vertical pass.
    pub fn apply(&self, image: &Raster) -> (out: Raster)
        requires
            image.wf(),
        ensures
            is_blurred(out, *image),
    {
        let mid = hblur_pass(image);
        let w = image.width;
        let h = image.height;
        let mut data: Vec<u8> = Vec::new();
        let mut y: usize = 0;
        while y < h
            invariant
                image.wf(),
                is_hblurred(mid, *image),
                w == image.width,
                h == image.height,
                y <= h,
                data.len() == 4 * (y * w),
                forall|yy: int, xx: int|
                    0 <= yy < y && 0 <= xx < w
                        ==> crate::raster::spec_pixel_of(data@, w as int, xx, yy)
                            == #[trigger] spec_blur_pixel(*image, xx, yy),
            decreases h - y,
        {
            let mut x: usize = 0;
            while x < w
                invariant
                    image.wf(),
                    is_hblurred(mid, *image),
                    w == image.width,
                    h == image.height,
                    y < h,
                    x <= w,
                    data.len() == 4 * (y * w + x),
                    forall|yy: int, xx: int|
                        0 <= yy < y && 0 <= xx < w
                            ==> crate::raster::spec_pixel_of(data@, w as int, xx, yy)
                                == #[trigger] spec_blur_pixel(*image, xx, yy),
                    forall|xx: int|
                        0 <= xx < x
                            ==> crate::raster::spec_pixel_of(data@, w as int, xx, y as int)
                                == #[trigger] spec_blur_pixel(*image, xx, y as int),
                decreases w - x,
            {
                proof {
                    lemma_rc_index(x as int, y as int, w as int, h as int);
                    lemma_rows_below(y as int, w as int);
                }
                let r = vblur_ch(&mid, Ghost(*image), x, y, 0);
                let g = vblur_ch(&mid, Ghost(*image), x, y, 1);
                let b = vblur_ch(&mid, Ghost(*image), x, y, 2);
                let a = vblur_ch(&mid, Ghost(*image), x, y, 3);
                data.push(r);
                data.push(g);
                data.push(b);
                data.push(a);
                x += 1;
            }
            proof {
                lemma_next_row(y as int, w as int);
            }
            y += 1;
        }
        proof {
            assert((h as int) * (w as int) == (w as int) * (h as int)) by (nonlinear_arith);
            lemma_rows_below(h as int, w as int);
        }
        Raster { width: w, height: h, data }
    }
}

/// Applying the inversion twice restores every pixel of a well-formed
/// raster exactly: inversion is an involution.
pub proof fn lemma_invert_involution(img: Raster, once: Raster, twice: Raster)
    requires
        img.wf(),
        is_point_map(once, img, PointKind::Invert),
        is_point_map(twice, once, PointKind::Invert),
    ensures
        forall|x: int, y: int|
            0 <= x < img.width && 0 <= y < img.height
                ==> twice.spec_pixel(x, y) == #[trigger] img.spec_pixel(x, y),
{
}

/// What the chosen filter guarantees of its output raster.
pub open spec fn is_filter_applied(out: Raster, img: Raster, filter: ImageFilter) -> bool {
    match filter {
        ImageFilter::Grayscale => is_point_map(out, img, PointKind::Grayscale),
        ImageFilter::Sepia => is_point_map(out, img, PointKind::Sepia),
        ImageFilter::Invert => is_point_map(out, img, PointKind::Invert),
        ImageFilter::Pixelate => is_pixelated(out, img),
        ImageFilter::Brighten => is_point_map(out, img, PointKind::Brighten),
        ImageFilter::Darken => is_point_map(out, img, PointKind::Darken),
        ImageFilter::Contrast => is_point_map(out, img, PointKind::Contrast),
        ImageFilter::Blur => is_blurred(out, img),
        ImageFilter::Sharpen => is_sharpened(out, img),
    }
}

/// Applies the requested filter to a full-colour raster. Every filter is
/// total and preserves the geometry of its input.
pub fn apply_filter(filter: &ImageFilter, image: &Raster) -> (out: Raster)
    requires
        image.wf(),
    ensures
        is_filter_applied(out, *image, *filter),
        out.wf(),
        out.width == image.width,
        out.height == image.height,
{
    match filter {
        ImageFilter::Grayscale => Grayscale.apply(image),
        ImageFilter::Sepia => Sepia.apply(image),
        ImageFilter::Invert => Invert.apply(image),
        ImageFilter::Pixelate => Pixelate.apply(image),
        ImageFilter::Brighten => Brighten.apply(image),
        ImageFilter::Darken => Darken.apply(image),
        ImageFilter::Contrast => Contrast.apply(image),
        ImageFilter::Blur => Blur.apply(image),
        ImageFilter::Sharpen => Sharpen.apply(image),
    }
}

} // verus!
