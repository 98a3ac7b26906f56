use vstd::prelude::*;
use crate::encode::{base64_encode, base64_of, png_bytes_of, png_encode_rgba};
use crate::errors::Error;
use crate::raster::{Raster, lemma_byte_in_pixel};

verus! {

/// An artifact ready for transport to a host UI: the lossless PNG bytes of
/// a recoloured image, wrapped as a base64 data URL.
#[derive(Debug)]
pub struct ProcessedImage {
    pub base64: String,
}

/// The value of one hexadecimal digit (numeric codepoint ranges for the
/// digits, the lower-case and the upper-case letters), or 16 for any other
/// character.
pub open spec fn spec_hex_digit(c: char) -> int {
    let u = c as int;
    if 48 <= u && u <= 57 {
        u - 48
    } else if 97 <= u && u <= 102 {
        u - 87
    } else if 65 <= u && u <= 70 {
        u - 55
    } else {
        16
    }
}

/// A colour component read from two hex digits at position `i`. Anything
/// malformed falls back to full intensity, so a bad colour string yields
/// white rather than a failure.
pub open spec fn spec_hex_byte(s: Seq<char>, i: int) -> int {
    if 0 <= i && i + 2 <= s.len() && spec_hex_digit(s[i]) < 16 && spec_hex_digit(s[i + 1]) < 16 {
        16 * spec_hex_digit(s[i]) + spec_hex_digit(s[i + 1])
    } else {
        255
    }
}

/// The string with every leading `#` removed.
pub open spec fn spec_trim_hash(s: Seq<char>) -> Seq<char>
    decreases s.len(),
{
    if s.len() > 0 && s[0] == '#' {
        spec_trim_hash(s.subrange(1, s.len() as int))
    } else {
        s
    }
}

/// The RGB triple a hex colour string encodes, component by component.
pub open spec fn spec_hex_to_rgb(s: Seq<char>) -> (int, int, int) {
    let t = spec_trim_hash(s);
    (spec_hex_byte(t, 0), spec_hex_byte(t, 2), spec_hex_byte(t, 4))
}

/// One byte of the recoloured buffer: the pixel's luminance (weights
/// 299/587/114) tints the chosen colour toward white — a dark source pixel
/// shows the colour, a light one shows white — and alpha passes through.
pub open spec fn spec_colormap_byte(s: Seq<u8>, i: int, cr: int, cg: int, cb: int) -> int {
    let p = 4 * (i / 4);
    let gray = (299 * s[p] + 587 * s[p + 1] + 114 * s[p + 2]) / 1000;
    let inv = 255 - gray;
    if i % 4 == 0 {
        (inv * cr + gray * 255) / 255
    } else if i % 4 == 1 {
        (inv * cg + gray * 255) / 255
    } else if i % 4 == 2 {
        (inv * cb + gray * 255) / 255
    } else {
        s[i] as int
    }
}

/// The whole recoloured buffer, byte for byte.
pub open spec fn spec_colormap_bytes(s: Seq<u8>, cr: int, cg: int, cb: int) -> Seq<u8> {
    Seq::new(s.len(), |i: int| spec_colormap_byte(s, i, cr, cg, cb) as u8)
}

/// A recoloured channel value stays a byte: the colour share and the white
/// share are a convex mix.
proof fn lemma_colormap_ch_bounds(inv: int, gray: int, col: int)
    requires
        0 <= gray <= 255,
        inv == 255 - gray,
        0 <= col <= 255,
    ensures
        0 <= (inv * col + gray * 255) / 255 <= 255,
{
    assert(0 <= (inv * col + gray * 255) / 255 <= 255) by (nonlinear_arith)
        requires
            0 <= gray <= 255 && inv == 255 - gray && 0 <= col <= 255,
    ;
}

/// Applies a single-colour luminance remap to a whole image and wraps the
/// result for transport.
pub struct ColorMap {
    /// The decoded source raster.
    pub image: Raster,
    /// The requested colour as a hex string.
    pub hex: String,
}

/// Parses one character as a hex digit.
fn hex_digit(c: char) -> (r: u8)
    ensures
        r as int == spec_hex_digit(c),
{
    let u = c as u32;
    if 48 <= u && u <= 57 {
        (u - 48) as u8
    } else if 97 <= u && u <= 102 {
        (u - 87) as u8
    } else if 65 <= u && u <= 70 {
        (u - 55) as u8
    } else {
        16
    }
}

/// Reads the colour component at character position `start + off` of `hex`.
fn hex_byte_at(hex: &str, n: usize, start: usize, off: usize) -> (r: u8)
    requires
        n == hex@.len(),
        start <= n,
        off <= 4,
        spec_trim_hash(hex@) == hex@.subrange(start as int, n as int),
    ensures
        r as int == spec_hex_byte(spec_trim_hash(hex@), off as int),
{
    if n - start >= off + 2 {
        let d1 = hex_digit(hex.get_char(start + off));
        let d2 = hex_digit(hex.get_char(start + off + 1));
        if d1 < 16 && d2 < 16 {
            16 * d1 + d2
        } else {
            255
        }
    } else {
        255
    }
}

impl ColorMap {
    /// Parses a hex colour string such as `#ff8800`, after any number of
    /// leading `#` marks; each malformed component falls back to 255, so an
    /// unrecognised string yields white instead of an error.
    pub fn hex_to_rgb(hex: &str) -> (rgb: (u8, u8, u8))
        ensures
            (rgb.0 as int, rgb.1 as int, rgb.2 as int) == spec_hex_to_rgb(hex@),
    {
        let n = hex.unicode_len();
        proof {
            assert(hex@.subrange(0, n as int) =~= hex@);
        }
        let mut start: usize = 0;
        while start < n && hex.get_char(start) == '#'
            invariant
                n == hex@.len(),
                start <= n,
                spec_trim_hash(hex@) == spec_trim_hash(hex@.subrange(start as int, n as int)),
            decreases n - start,
        {
            proof {
                assert(hex@.subrange(start as int, n as int).subrange(
                    1,
                    hex@.subrange(start as int, n as int).len() as int,
                ) =~= hex@.subrange(start as int + 1, n as int));
            }
            start += 1;
        }
        proof {
            assert(spec_trim_hash(hex@.subrange(start as int, n as int)) == hex@.subrange(
                start as int,
                n as int,
            ));
        }
        let r = hex_byte_at(hex, n, start, 0);
        let g = hex_byte_at(hex, n, start, 2);
        let b = hex_byte_at(hex, n, start, 4);
        (r, g, b)
    }

    /// Wraps a decoded raster and the requested colour.
    pub fn new(image: Raster, hex: String) -> (r: Self)
        ensures
            r.image == image,
            r.hex == hex,
    {
        Self { image, hex }
    }

    /// Recolours the image by its luminance and encodes the result as a
    /// base64 PNG data URL. Within the PNG dimension range the run
    /// succeeds; geometry beyond the encoder's range surfaces as a
    /// processing error.
    pub fn apply(&self) -> (r: Result<ProcessedImage, Error>)
        requires
            self.image.wf(),
        ensures
            (self.image.width <= 0x7fff_ffff && self.image.height <= 0x7fff_ffff) ==> r is Ok,
            r matches Ok(p) ==> ({
                let rgb = spec_hex_to_rgb(self.hex@);
                p.base64@ == "data:image/png;base64,"@ + base64_of(
                    png_bytes_of(
                        spec_colormap_bytes(self.image.data@, rgb.0, rgb.1, rgb.2),
                        self.image.width as int,
                        self.image.height as int,
                    ),
                )
            }),
            r is Err ==> (r matches Err(e) && e is Processing),
    {
        let (cr, cg, cb) = Self::hex_to_rgb(self.hex.as_str());
        let n = self.image.data.len();
        let mut mapped: Vec<u8> = Vec::new();
        let mut p: usize = 0;
        while 4 * p < n
            invariant
                self.image.wf(),
                n == self.image.data.len(),
                4 * p <= n + 3,
                mapped.len() == 4 * p,
                (cr as int, cg as int, cb as int) == spec_hex_to_rgb(self.hex@),
                forall|j: int|
                    0 <= j < 4 * p
                        ==> mapped@[j] as int == spec_colormap_byte(
                            self.image.data@, j, cr as int, cg as int, cb as int),
            decreases n - 4 * p,
        {
            proof {
                lemma_byte_in_pixel(p as int, 0);
                lemma_byte_in_pixel(p as int, 1);
                lemma_byte_in_pixel(p as int, 2);
                lemma_byte_in_pixel(p as int, 3);
                assert(self.image.data@.len() % 4 == 0) by (nonlinear_arith)
                    requires
                        self.image.data@.len() == self.image.width * self.image.height * 4,
                ;
                assert(4 * (p as int) < n ==> 4 * (p as int) + 3 < n) by (nonlinear_arith)
                    requires
                        n % 4 == 0,
                ;
            }
            let r0 = self.image.data[4 * p];
            let g0 = self.image.data[4 * p + 1];
            let b0 = self.image.data[4 * p + 2];
            let a0 = self.image.data[4 * p + 3];
            let gray = (299 * r0 as u32 + 587 * g0 as u32 + 114 * b0 as u32) / 1000;
            let inv = 255 - gray;
            proof {
                lemma_colormap_ch_bounds(inv as int, gray as int, cr as int);
                lemma_colormap_ch_bounds(inv as int, gray as int, cg as int);
                lemma_colormap_ch_bounds(inv as int, gray as int, cb as int);
            }
            mapped.push(((inv * cr as u32 + gray * 255) / 255) as u8);
            mapped.push(((inv * cg as u32 + gray * 255) / 255) as u8);
            mapped.push(((inv * cb as u32 + gray * 255) / 255) as u8);
            mapped.push(a0);
            p += 1;
        }
        proof {
            assert(mapped@ =~= spec_colormap_bytes(
                self.image.data@, cr as int, cg as int, cb as int));
        }
        let w64 = self.image.width as u64;
        let h64 = self.image.height as u64;
        if w64 > 0xffff_ffff || h64 > 0xffff_ffff {
            return Err(Error::Processing(String::from_str("image too large to encode")));
        }
        let png = match png_encode_rgba(&mapped, self.image.width as u32, self.image.height as u32) {
            Ok(b) => b,
            Err(e) => return Err(e),
        };
        let b64 = base64_encode(&png);
        let mut url = String::from_str("data:image/png;base64,");
        url.append(b64.as_str());
        Ok(ProcessedImage { base64: url })
    }
}

} // verus!
