use vstd::prelude::*;
use crate::raster::{Raster, Rgba8, lemma_next_row, lemma_rc_index, lemma_rows_below};

verus! {

/// One additive primary channel, or the set of all three.
#[derive(Clone, Copy, Debug, PartialEq, Eq, Structural)]
pub enum RgbChannel {
    Red,
    Green,
    Blue,
    All,
}

/// The flag bits a channel set stands for: red 1, green 2, blue 4.
pub open spec fn spec_rgb_bits(c: RgbChannel) -> u8 {
    match c {
        RgbChannel::Red => 1u8,
        RgbChannel::Green => 2u8,
        RgbChannel::Blue => 4u8,
        RgbChannel::All => 7u8,
    }
}

/// A set of additive primaries as an explicit flag value. Combining
/// channels happens on this type, never by reinterpreting a raw integer as
/// an enum variant.
#[derive(Clone, Copy, Debug, PartialEq, Eq, Structural)]
pub struct RgbChannels(pub u8);

impl RgbChannels {
    /// Whether any flag of `channel` is set in this set.
    pub fn contains(self, channel: RgbChannel) -> (r: bool)
        ensures
            r == ((self.0 & spec_rgb_bits(channel)) != 0),
    {
        (self.0 & rgb_bits(channel)) != 0
    }

    /// The union of this set with another channel.
    pub fn or(self, rhs: RgbChannel) -> (r: RgbChannels)
        ensures
            r.0 == (self.0 | spec_rgb_bits(rhs)),
    {
        RgbChannels(self.0 | rgb_bits(rhs))
    }
}

/// Computes the flag bits of a channel set.
fn rgb_bits(c: RgbChannel) -> (r: u8)
    ensures
        r == spec_rgb_bits(c),
{
    match c {
        RgbChannel::Red => 1,
        RgbChannel::Green => 2,
        RgbChannel::Blue => 4,
        RgbChannel::All => 7,
    }
}

impl RgbChannel {
    /// Whether this set shares any channel with `channel`.
    pub fn contains(self, channel: RgbChannel) -> (r: bool)
        ensures
            r == ((spec_rgb_bits(self) & spec_rgb_bits(channel)) != 0),
    {
        (rgb_bits(self) & rgb_bits(channel)) != 0
    }

    /// The set holding all three channels.
    pub fn all() -> (r: Self)
        ensures
            r == RgbChannel::All,
    {
        RgbChannel::All
    }

    /// This channel as an explicit flag set, for combining.
    pub fn flags(self) -> (r: RgbChannels)
        ensures
            r.0 == spec_rgb_bits(self),
    {
        RgbChannels(rgb_bits(self))
    }

    /// The channel indices this set selects, in red, green, blue order.
    pub open spec fn selected(self) -> Seq<int> {
        (if spec_rgb_bits(self) & 1u8 != 0 {
            seq![0int]
        } else {
            Seq::empty()
        }) + (if spec_rgb_bits(self) & 2u8 != 0 {
            seq![1int]
        } else {
            Seq::empty()
        }) + (if spec_rgb_bits(self) & 4u8 != 0 {
            seq![2int]
        } else {
            Seq::empty()
        })
    }
}

/// The value of additive primary `k` (0 red, 1 green, 2 blue) of a pixel.
pub open spec fn spec_rgb_value(px: Rgba8, k: int) -> u8 {
    if k == 0 {
        px.r
    } else if k == 1 {
        px.g
    } else {
        px.b
    }
}

/// `out` renders channel `k` of `img` as an opaque gray image: every pixel
/// carries the channel's value on all three primaries.
pub open spec fn is_rgb_plate(out: Raster, img: Raster, k: int) -> bool {
    &&& out.wf()
    &&& out.width == img.width
    &&& out.height == img.height
    &&& forall|x: int, y: int|
        0 <= x < img.width && 0 <= y < img.height
            ==> out.spec_pixel(x, y) == (Rgba8 {
                r: spec_rgb_value(#[trigger] img.spec_pixel(x, y), k),
                g: spec_rgb_value(img.spec_pixel(x, y), k),
                b: spec_rgb_value(img.spec_pixel(x, y), k),
                a: 255u8,
            })
}

/// Renders one additive channel as an opaque gray raster.
fn build_rgb_plate(img: &Raster, k: usize) -> (out: Raster)
    requires
        img.wf(),
        k < 3,
    ensures
        is_rgb_plate(out, *img, k as int),
{
    let w = img.width;
    let h = img.height;
    let mut data: Vec<u8> = Vec::new();
    let mut y: usize = 0;
    while y < h
        invariant
            img.wf(),
            w == img.width,
            h == img.height,
            k < 3,
            y <= h,
            data.len() == 4 * (y * w),
            forall|yy: int, xx: int|
                0 <= yy < y && 0 <= xx < w
                    ==> crate::raster::spec_pixel_of(data@, w as int, xx, yy) == (Rgba8 {
                        r: spec_rgb_value(#[trigger] img.spec_pixel(xx, yy), k as int),
                        g: spec_rgb_value(img.spec_pixel(xx, yy), k as int),
                        b: spec_rgb_value(img.spec_pixel(xx, yy), k as int),
                        a: 255u8,
                    }),
        decreases h - y,
    {
        let mut x: usize = 0;
        while x < w
            invariant
                img.wf(),
                w == img.width,
                h == img.height,
                k < 3,
                y < h,
                x <= w,
                data.len() == 4 * (y * w + x),
                forall|yy: int, xx: int|
                    0 <= yy < y && 0 <= xx < w
                        ==> crate::raster::spec_pixel_of(data@, w as int, xx, yy) == (Rgba8 {
                            r: spec_rgb_value(#[trigger] img.spec_pixel(xx, yy), k as int),
                            g: spec_rgb_value(img.spec_pixel(xx, yy), k as int),
                            b: spec_rgb_value(img.spec_pixel(xx, yy), k as int),
                            a: 255u8,
                        }),
                forall|xx: int|
                    0 <= xx < x
                        ==> crate::raster::spec_pixel_of(data@, w as int, xx, y as int)
                            == (Rgba8 {
                            r: spec_rgb_value(#[trigger] img.spec_pixel(xx, y as int), k as int),
                            g: spec_rgb_value(img.spec_pixel(xx, y as int), k as int),
                            b: spec_rgb_value(img.spec_pixel(xx, y as int), k as int),
                            a: 255u8,
                        }),
            decreases w - x,
        {
            proof {
                lemma_rc_index(x as int, y as int, w as int, h as int);
                lemma_rows_below(y as int, w as int);
            }
            let px = img.get_pixel(x, y);
            let v = if k == 0 {
                px.r
            } else if k == 1 {
                px.g
            } else {
                px.b
            };
            data.push(v);
            data.push(v);
            data.push(v);
            data.push(255);
            x += 1;
        }
        proof {
            lemma_next_row(y as int, w as int);
        }
        y += 1;
    }
    proof {
        assert((h as int) * (w as int) == (w as int) * (h as int)) by (nonlinear_arith);
        lemma_rows_below(h as int, w as int);
    }
    Raster { width: w, height: h, data }
}

/// Renders the requested additive channels, always in red, green, blue
/// order: one opaque gray raster per selected channel. An empty selection
/// yields an empty sequence.
pub fn split_channels(image: &Raster, channels: RgbChannel) -> (res: Vec<Raster>)
    requires
        image.wf(),
    ensures
        res.len() == channels.selected().len(),
        forall|j: int|
            0 <= j < res.len() ==> is_rgb_plate(#[trigger] res@[j], *image,
                channels.selected()[j]),
{
    let bits = rgb_bits(channels);
    let mut res: Vec<Raster> = Vec::new();
    if (bits & 1) != 0 {
        res.push(build_rgb_plate(image, 0));
    }
    if (bits & 2) != 0 {
        res.push(build_rgb_plate(image, 1));
    }
    if (bits & 4) != 0 {
        res.push(build_rgb_plate(image, 2));
    }
    res
}

} // verus!
