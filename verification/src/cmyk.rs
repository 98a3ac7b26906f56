use vstd::prelude::*;
use crate::raster::{GrayRaster, Raster, Rgba8, lemma_next_row, lemma_rc_index, lemma_rows_below};

verus! {

/// A set of CMYK channels as bit flags: bit 0 cyan, bit 1 magenta,
/// bit 2 yellow, bit 3 black.
#[derive(Clone, Copy, Debug, PartialEq, Eq, Structural)]
pub struct CmykChannels(pub u8);

impl CmykChannels {
    /// The flag for the cyan channel.
    pub fn cyan() -> (r: Self)
        ensures
            r.0 == 0x1u8,
    {
        CmykChannels(0x1)
    }

    /// The flag for the magenta channel.
    pub fn magenta() -> (r: Self)
        ensures
            r.0 == 0x2u8,
    {
        CmykChannels(0x2)
    }

    /// The flag for the yellow channel.
    pub fn yellow() -> (r: Self)
        ensures
            r.0 == 0x4u8,
    {
        CmykChannels(0x4)
    }

    /// The flag for the black (key) channel.
    pub fn black() -> (r: Self)
        ensures
            r.0 == 0x8u8,
    {
        CmykChannels(0x8)
    }

    /// All four channels.
    pub fn all() -> (r: Self)
        ensures
            r.0 == 0xfu8,
    {
        CmykChannels(0xf)
    }

    /// No channel at all.
    pub fn none() -> (r: Self)
        ensures
            r.0 == 0x0u8,
    {
        CmykChannels(0x0)
    }

    /// Whether any flag of `ch` is set in `self`.
    pub open spec fn spec_contains(self, ch: CmykChannels) -> bool {
        self.0 & ch.0 != 0
    }

    /// Whether any flag of `channel` is set in `self`.
    pub fn contains(self, channel: CmykChannels) -> (r: bool)
        ensures
            r == self.spec_contains(channel),
    {
        (self.0 & channel.0) != 0
    }

    /// The union of two channel sets.
    pub fn or(self, rhs: Self) -> (r: Self)
        ensures
            r.0 == (self.0 | rhs.0),
    {
        CmykChannels(self.0 | rhs.0)
    }

    /// Whether the cyan flag is set.
    pub open spec fn has_cyan(self) -> bool {
        self.0 & 0x1u8 != 0
    }

    /// Whether the magenta flag is set.
    pub open spec fn has_magenta(self) -> bool {
        self.0 & 0x2u8 != 0
    }

    /// Whether the yellow flag is set.
    pub open spec fn has_yellow(self) -> bool {
        self.0 & 0x4u8 != 0
    }

    /// Whether the black flag is set.
    pub open spec fn has_black(self) -> bool {
        self.0 & 0x8u8 != 0
    }

    /// The channel indices selected by this set, in canonical
    /// cyan, magenta, yellow, black order.
    pub open spec fn selected(self) -> Seq<int> {
        (if self.has_cyan() { seq![0int] } else { Seq::empty() })
        + (if self.has_magenta() { seq![1int] } else { Seq::empty() })
        + (if self.has_yellow() { seq![2int] } else { Seq::empty() })
        + (if self.has_black() { seq![3int] } else { Seq::empty() })
    }
}

/// The largest of three channel values.
pub open spec fn spec_max3(r: int, g: int, b: int) -> int {
    if r >= g && r >= b {
        r
    } else if g >= b {
        g
    } else {
        b
    }
}

/// One colour component of the subtractive conversion against a non-zero
/// maximum `m`: `255 * (m - v) / m`, rounded half up.
pub open spec fn spec_cmyk_channel(v: int, m: int) -> int {
    (510 * (m - v) + m) / (2 * m)
}

/// The subtractive conversion of one RGB triplet: key is `255 - max`, and
/// each colour component measures how far it falls below the maximum. A pure
/// black input short-circuits to `(0, 0, 0, 255)` so no division by zero can
/// arise.
pub open spec fn spec_rgb_to_cmyk(r: int, g: int, b: int) -> (int, int, int, int) {
    let m = spec_max3(r, g, b);
    if m == 0 {
        (0int, 0int, 0int, 255int)
    } else {
        (spec_cmyk_channel(r, m), spec_cmyk_channel(g, m), spec_cmyk_channel(b, m), 255 - m)
    }
}

/// A colour component lies in `[0, 255]` whenever its input does.
proof fn lemma_cmyk_channel_bounds(v: int, m: int)
    requires
        1 <= m <= 255,
        0 <= v <= m,
    ensures
        0 <= spec_cmyk_channel(v, m) <= 255,
{
    assert(0 <= (510 * (m - v) + m) / (2 * m) <= 255) by (nonlinear_arith)
        requires
            1 <= m <= 255,
            0 <= v <= m,
    ;
}

/// Converts one RGB pixel to CMYK. Pure and deterministic: identical inputs
/// give identical outputs on every call.
pub fn rgb_to_cmyk(r: u8, g: u8, b: u8) -> (res: (u8, u8, u8, u8))
    ensures
        (res.0 as int, res.1 as int, res.2 as int, res.3 as int)
            == spec_rgb_to_cmyk(r as int, g as int, b as int),
{
    let mut m = r;
    if g > m {
        m = g;
    }
    if b > m {
        m = b;
    }
    if m == 0 {
        return (0, 0, 0, 255);
    }
    proof {
        lemma_cmyk_channel_bounds(r as int, m as int);
        lemma_cmyk_channel_bounds(g as int, m as int);
        lemma_cmyk_channel_bounds(b as int, m as int);
    }
    let mw = m as u32;
    let c = (510 * (mw - r as u32) + mw) / (2 * mw);
    let cm = (510 * (mw - g as u32) + mw) / (2 * mw);
    let y = (510 * (mw - b as u32) + mw) / (2 * mw);
    let k = 255 - m;
    (c as u8, cm as u8, y as u8, k)
}

/// One component of the inverse conversion used for previews:
/// `255 * (1 - c/255) * (1 - k/255)`, rounded half up.
pub open spec fn spec_cmyk_to_rgb_channel(c: int, k: int) -> int {
    (2 * (255 - c) * (255 - k) + 255) / 510
}

/// A preview component lies in `[0, 255]` for byte inputs.
proof fn lemma_cmyk_to_rgb_bounds(c: int, k: int)
    requires
        0 <= c <= 255,
        0 <= k <= 255,
    ensures
        0 <= spec_cmyk_to_rgb_channel(c, k) <= 255,
{
    assert(0 <= (2 * (255 - c) * (255 - k) + 255) / 510 <= 255) by (nonlinear_arith)
        requires
            0 <= c <= 255,
            0 <= k <= 255,
    ;
}

/// Converts one CMYK quadruplet back to RGB for preview. Pure and
/// deterministic; components are clamped into `[0, 255]` by construction.
pub fn cmyk_to_rgb(c: u8, m: u8, y: u8, k: u8) -> (res: (u8, u8, u8))
    ensures
        (res.0 as int, res.1 as int, res.2 as int) == (
            spec_cmyk_to_rgb_channel(c as int, k as int),
            spec_cmyk_to_rgb_channel(m as int, k as int),
            spec_cmyk_to_rgb_channel(y as int, k as int),
        ),
{
    proof {
        lemma_cmyk_to_rgb_bounds(c as int, k as int);
        lemma_cmyk_to_rgb_bounds(m as int, k as int);
        lemma_cmyk_to_rgb_bounds(y as int, k as int);
    }
    let kw = 255 - k as u32;
    let r = (2 * (255 - c as u32) * kw + 255) / 510;
    let g = (2 * (255 - m as u32) * kw + 255) / 510;
    let b = (2 * (255 - y as u32) * kw + 255) / 510;
    (r as u8, g as u8, b as u8)
}

/// For a pure gray input the conversion produces no colour ink at all and a
/// key of `255 - v`; in particular pure black maps to `(0, 0, 0, 255)`.
pub proof fn lemma_gray_rgb_to_cmyk(v: int)
    requires
        0 <= v <= 255,
    ensures
        spec_rgb_to_cmyk(v, v, v) == (0int, 0int, 0int, 255 - v),
{
    if v != 0 {
        assert((510 * (v - v) + v) / (2 * v) == 0) by (nonlinear_arith)
            requires
                1 <= v,
        ;
    }
}

/// The tone of one ink plate for one source pixel, channel `kind` numbered
/// 0 cyan, 1 magenta, 2 yellow, 3 black; darker tone means more ink.
///
/// Rendering convention, held consistently across all plates: each colour
/// plate is the inverse of its complementary additive primary — cyan
/// `255 - r`, magenta `255 - g`, yellow `255 - b` — and the key plate is
/// the inverse of the key value, `255 - k`, which equals the brightest
/// component. So a solid red source yields a fully dark cyan plate and
/// fully light magenta, yellow and key plates; a pure black pixel renders
/// white on the colour plates and full ink on the key plate; and a fully
/// transparent pixel renders white on every plate.
pub open spec fn spec_plate_tone(px: Rgba8, kind: int) -> u8 {
    if px.a == 0 {
        255u8
    } else if kind == 0 {
        (255 - px.r) as u8
    } else if kind == 1 {
        (255 - px.g) as u8
    } else if kind == 2 {
        (255 - px.b) as u8
    } else {
        spec_max3(px.r as int, px.g as int, px.b as int) as u8
    }
}

/// Fully transparent source pixels render white — no ink at all — on every
/// separated plate, whatever their colour channels hold.
pub proof fn lemma_transparent_renders_white(
    img: Raster,
    plate: GrayRaster,
    kind: int,
    x: int,
    y: int,
)
    requires
        img.wf(),
        is_plate_of(plate, img, kind),
        0 <= x < img.width,
        0 <= y < img.height,
        img.spec_pixel(x, y).a == 0,
    ensures
        plate.spec_at(x, y) == 255,
{
}

/// The tone of the key plate is the inverse of the key value that
/// `spec_rgb_to_cmyk` computes for the same pixel.
pub proof fn lemma_key_plate_is_inverse_key(px: Rgba8)
    requires
        px.a != 0,
    ensures
        spec_plate_tone(px, 3) as int
            == 255 - spec_rgb_to_cmyk(px.r as int, px.g as int, px.b as int).3,
{
}

/// Computes the tone of plate `kind` for one pixel.
fn plate_tone(px: Rgba8, kind: usize) -> (t: u8)
    requires
        kind < 4,
    ensures
        t == spec_plate_tone(px, kind as int),
{
    if px.a == 0 {
        255
    } else if kind == 0 {
        255 - px.r
    } else if kind == 1 {
        255 - px.g
    } else if kind == 2 {
        255 - px.b
    } else {
        let mut m = px.r;
        if px.g > m {
            m = px.g;
        }
        if px.b > m {
            m = px.b;
        }
        m
    }
}

/// `plate` is the rendering of channel `kind` of `img`: same geometry, and
/// every tone follows the plate convention.
pub open spec fn is_plate_of(plate: GrayRaster, img: Raster, kind: int) -> bool {
    &&& plate.wf()
    &&& plate.width == img.width
    &&& plate.height == img.height
    &&& forall|x: int, y: int|
        0 <= x < img.width && 0 <= y < img.height
            ==> plate.spec_at(x, y) == spec_plate_tone(#[trigger] img.spec_pixel(x, y), kind)
}

/// Renders one ink plate of the image.
fn build_plate(img: &Raster, kind: usize) -> (plate: GrayRaster)
    requires
        img.wf(),
        kind < 4,
    ensures
        is_plate_of(plate, *img, kind as int),
{
    let w = img.width;
    let h = img.height;
    let mut data: Vec<u8> = Vec::new();
    let mut y: usize = 0;
    while y < h
        invariant
            img.wf(),
            w == img.width,
            h == img.height,
            kind < 4,
            y <= h,
            data.len() == y * w,
            forall|yy: int, xx: int|
                0 <= yy < y && 0 <= xx < w
                    ==> data@[yy * w + xx] == spec_plate_tone(
                        #[trigger] img.spec_pixel(xx, yy), kind as int),
        decreases h - y,
    {
        let mut x: usize = 0;
        while x < w
            invariant
                img.wf(),
                w == img.width,
                h == img.height,
                y < h,
                x <= w,
                kind < 4,
                data.len() == y * w + x,
                forall|yy: int, xx: int|
                    0 <= yy < y && 0 <= xx < w
                        ==> data@[yy * w + xx] == spec_plate_tone(
                            #[trigger] img.spec_pixel(xx, yy), kind as int),
                forall|xx: int|
                    0 <= xx < x
                        ==> data@[y * w + xx] == spec_plate_tone(
                            #[trigger] img.spec_pixel(xx, y as int), kind as int),
            decreases w - x,
        {
            proof {
                lemma_rc_index(x as int, y as int, w as int, h as int);
                lemma_rows_below(y as int, w as int);
            }
            let px = img.get_pixel(x, y);
            data.push(plate_tone(px, kind));
            x += 1;
        }
        proof {
            lemma_next_row(y as int, w as int);
        }
        y += 1;
    }
    proof {
        assert((h as int) * (w as int) == (w as int) * (h as int)) by (nonlinear_arith);
        lemma_rows_below(h as int, w as int);
    }
    GrayRaster { width: w, height: h, data }
}

/// Renders all four ink plates, in canonical cyan, magenta, yellow, black
/// order, each with the geometry of the source.
pub fn split_rgb_to_cmyk_channels(img: &Raster) -> (plates: Vec<GrayRaster>)
    requires
        img.wf(),
    ensures
        plates.len() == 4,
        forall|j: int| 0 <= j < 4 ==> is_plate_of(#[trigger] plates@[j], *img, j),
{
    let mut plates: Vec<GrayRaster> = Vec::new();
    plates.push(build_plate(img, 0));
    plates.push(build_plate(img, 1));
    plates.push(build_plate(img, 2));
    plates.push(build_plate(img, 3));
    plates
}

/// Renders the requested subset of ink plates, always in canonical cyan,
/// magenta, yellow, black order: one raster per selected channel, each with
/// the geometry of the source. An empty selection yields an empty sequence,
/// never an error.
pub fn split_channels(image: &Raster, channels: CmykChannels) -> (res: Vec<GrayRaster>)
    requires
        image.wf(),
    ensures
        res.len() == channels.selected().len(),
        forall|j: int|
            0 <= j < res.len()
                ==> is_plate_of(#[trigger] res@[j], *image, channels.selected()[j]),
{
    let mut res: Vec<GrayRaster> = Vec::new();
    if channels.contains(CmykChannels::cyan()) {
        res.push(build_plate(image, 0));
    }
    if channels.contains(CmykChannels::magenta()) {
        res.push(build_plate(image, 1));
    }
    if channels.contains(CmykChannels::yellow()) {
        res.push(build_plate(image, 2));
    }
    if channels.contains(CmykChannels::black()) {
        res.push(build_plate(image, 3));
    }
    proof {
        assert(channels.has_cyan() == ((channels.0 & 0x1u8) != 0)) by (bit_vector);
        assert(channels.has_magenta() == ((channels.0 & 0x2u8) != 0)) by (bit_vector);
        assert(channels.has_yellow() == ((channels.0 & 0x4u8) != 0)) by (bit_vector);
        assert(channels.has_black() == ((channels.0 & 0x8u8) != 0)) by (bit_vector);
    }
    res
}

} // verus!
