use vstd::prelude::*;
use crate::errors::Error;

verus! {

/// One 8-bit RGBA pixel.
#[derive(Clone, Copy, Debug, PartialEq, Eq, Structural)]
pub struct Rgba8 {
    pub r: u8,
    pub g: u8,
    pub b: u8,
    pub a: u8,
}

/// Row index times row width plus column index stays inside the pixel count.
pub proof fn lemma_rc_index(x: int, y: int, w: int, h: int)
    requires
        0 <= x < w,
        0 <= y < h,
    ensures
        0 <= y * w + x < w * h,
{
    assert(0 <= y * w + x < w * h) by (nonlinear_arith)
        requires
            0 <= x < w,
            0 <= y < h,
    ;
}

/// Every cell of a row strictly before row `y` lies below offset `y * w`.
pub proof fn lemma_rows_below(y: int, w: int)
    requires
        0 <= w,
    ensures
        forall|yy: int, xx: int|
            0 <= yy < y && 0 <= xx < w ==> 0 <= #[trigger] (yy * w + xx) < y * w,
{
    assert forall|yy: int, xx: int|
        0 <= yy < y && 0 <= xx < w implies 0 <= #[trigger] (yy * w + xx) < y * w by {
        assert(0 <= yy * w + xx < y * w) by (nonlinear_arith)
            requires
                0 <= yy < y,
                0 <= xx < w,
        ;
    }
}

/// Stepping to the next row advances the flat offset by one row width.
pub proof fn lemma_next_row(y: int, w: int)
    ensures
        (y + 1) * w == y * w + w,
{
    assert((y + 1) * w == y * w + w) by (nonlinear_arith);
}

/// A byte at offset `c` inside pixel `p` of a four-byte-per-pixel buffer.
pub proof fn lemma_byte_in_pixel(p: int, c: int)
    requires
        0 <= p,
        0 <= c < 4,
    ensures
        (4 * p + c) / 4 == p,
        (4 * p + c) % 4 == c,
{
    assert((4 * p + c) / 4 == p && (4 * p + c) % 4 == c) by (nonlinear_arith)
        requires
            0 <= p,
            0 <= c < 4,
    ;
}

/// The RGBA pixel at column `x`, row `y` of a raw row-major buffer of
/// width `w`.
pub open spec fn spec_pixel_of(s: Seq<u8>, w: int, x: int, y: int) -> Rgba8 {
    let i = 4 * (y * w + x);
    Rgba8 { r: s[i], g: s[i + 1], b: s[i + 2], a: s[i + 3] }
}

/// A full-colour raster: row-major RGBA bytes, 8 bits per channel, top-left
/// origin. Every stage produces a fresh raster instead of mutating in place.
#[derive(Clone, Debug)]
pub struct Raster {
    pub width: usize,
    pub height: usize,
    pub data: Vec<u8>,
}

impl Raster {
    /// Well-formed: neither dimension is zero and the buffer exactly fills
    /// `width * height` four-byte pixels.
    pub open spec fn wf(&self) -> bool {
        &&& self.width >= 1
        &&& self.height >= 1
        &&& self.data.len() == self.width * self.height * 4
    }

    /// The pixel at column `x`, row `y`.
    pub open spec fn spec_pixel(&self, x: int, y: int) -> Rgba8 {
        spec_pixel_of(self.data@, self.width as int, x, y)
    }

    /// Wraps a decoded pixel buffer. Fails with a domain error when a
    /// dimension is zero or the buffer does not exactly fill the geometry,
    /// which would indicate a decoding bug upstream.
    pub fn new(width: usize, height: usize, data: Vec<u8>) -> (r: Result<Raster, Error>)
        ensures
            r is Ok <==> (width >= 1 && height >= 1 && data.len() == width * height * 4),
            r matches Ok(img) ==> img.wf() && img.width == width && img.height == height
                && img.data@ == data@,
            r is Err ==> (r matches Err(e) && e is InvalidInput),
    {
        let fits = match width.checked_mul(height) {
            Some(p) => match p.checked_mul(4) {
                Some(total) => data.len() == total,
                None => false,
            },
            None => false,
        };
        if width >= 1 && height >= 1 && fits {
            Ok(Raster { width, height, data })
        } else {
            Err(Error::InvalidInput(String::from_str("raster buffer does not match its dimensions")))
        }
    }

    /// Reads the pixel at column `x`, row `y`.
    pub fn get_pixel(&self, x: usize, y: usize) -> (p: Rgba8)
        requires
            self.wf(),
            x < self.width,
            y < self.height,
        ensures
            p == self.spec_pixel(x as int, y as int),
    {
        proof {
            lemma_rc_index(x as int, y as int, self.width as int, self.height as int);
        }
        let i = 4 * (y * self.width + x);
        Rgba8 { r: self.data[i], g: self.data[i + 1], b: self.data[i + 2], a: self.data[i + 3] }
    }
}

/// A single-channel raster: one byte per pixel, row-major, top-left origin.
/// Used for the separated ink plates, where darker means more ink.
#[derive(Clone, Debug)]
pub struct GrayRaster {
    pub width: usize,
    pub height: usize,
    pub data: Vec<u8>,
}

impl GrayRaster {
    /// Well-formed: neither dimension is zero and the buffer exactly fills
    /// `width * height` one-byte pixels.
    pub open spec fn wf(&self) -> bool {
        &&& self.width >= 1
        &&& self.height >= 1
        &&& self.data.len() == self.width * self.height
    }

    /// The tone at column `x`, row `y`.
    pub open spec fn spec_at(&self, x: int, y: int) -> u8 {
        self.data@[y * self.width + x]
    }

    /// Wraps a single-channel pixel buffer; fails with a domain error on a
    /// zero dimension or a buffer that does not fill the geometry.
    pub fn new(width: usize, height: usize, data: Vec<u8>) -> (r: Result<GrayRaster, Error>)
        ensures
            r is Ok <==> (width >= 1 && height >= 1 && data.len() == width * height),
            r matches Ok(img) ==> img.wf() && img.width == width && img.height == height
                && img.data@ == data@,
            r is Err ==> (r matches Err(e) && e is InvalidInput),
    {
        let fits = match width.checked_mul(height) {
            Some(p) => data.len() == p,
            None => false,
        };
        if width >= 1 && height >= 1 && fits {
            Ok(GrayRaster { width, height, data })
        } else {
            Err(Error::InvalidInput(String::from_str("raster buffer does not match its dimensions")))
        }
    }

    /// Reads the tone at column `x`, row `y`.
    pub fn get(&self, x: usize, y: usize) -> (v: u8)
        requires
            self.wf(),
            x < self.width,
            y < self.height,
        ensures
            v == self.spec_at(x as int, y as int),
    {
        proof {
            lemma_rc_index(x as int, y as int, self.width as int, self.height as int);
        }
        self.data[y * self.width + x]
    }
}

} // verus!

