use vstd::prelude::*;
use crate::errors::Error;

verus! {

/// The PNG encoding of an RGBA pixel buffer with the given geometry, as the
/// image crate produces it: a pure function of the bytes and the geometry.
pub uninterp spec fn png_bytes_of(data: Seq<u8>, w: int, h: int) -> Seq<u8>;

/// The JPEG encoding of an RGB pixel buffer at a given quality, as the
/// image crate produces it: a pure function of its arguments.
pub uninterp spec fn jpeg_bytes_of(data: Seq<u8>, w: int, h: int, quality: int) -> Seq<u8>;

/// The standard padded base64 encoding of a byte sequence.
pub uninterp spec fn base64_of(data: Seq<u8>) -> Seq<char>;

/// Relies on the image crate: `RgbaImage::from_raw` wraps the buffer (it
/// yields `Some` exactly when the buffer fills the geometry, which the
/// precondition guarantees) and `ImageBuffer::write_to` serialises it as
/// lossless PNG. The encoding depends on the bytes and geometry alone, and
/// writing to an in-memory buffer cannot fail: the png encoder refuses only
/// a zero dimension, so within the PNG dimension range the call succeeds.
#[verifier::external_body]
pub(crate) fn png_encode_rgba(data: &Vec<u8>, w: u32, h: u32) -> (r: Result<Vec<u8>, Error>)
    requires
        data@.len() == w * h * 4,
    ensures
        r matches Ok(b) ==> b@ == png_bytes_of(data@, w as int, h as int),
        r is Err ==> (r matches Err(e) && e is Processing),
        (1 <= w && w <= 0x7fff_ffff && 1 <= h && h <= 0x7fff_ffff) ==> r is Ok,
{
    let buf = match image::RgbaImage::from_raw(w, h, data.clone()) {
        Some(b) => b,
        None => return Err(Error::Processing(format!("buffer does not fill {w}x{h}"))),
    };
    let mut cursor = std::io::Cursor::new(Vec::new());
    match buf.write_to(&mut cursor, image::ImageFormat::Png) {
        Ok(()) => Ok(cursor.into_inner()),
        Err(e) => Err(Error::Processing(format!("{e}"))),
    }
}

/// Relies on the image crate: `JpegEncoder::new_with_quality` plus
/// `JpegEncoder::encode` serialise an RGB buffer as JPEG at the chosen
/// quality. The precondition matches the buffer-size check the encoder
/// asserts, so the call cannot panic; the bytes depend on the arguments
/// alone. The encoder refuses exactly the dimensions outside the JPEG range
/// of 1 through 65535, and writing to an in-memory buffer cannot fail, so
/// within that range the call succeeds.
#[verifier::external_body]
pub(crate) fn jpeg_encode_rgb(data: &Vec<u8>, w: u32, h: u32, quality: u8) -> (r: Result<
    Vec<u8>,
    Error,
>)
    requires
        data@.len() == w * h * 3,
    ensures
        r matches Ok(b) ==> b@ == jpeg_bytes_of(data@, w as int, h as int, quality as int),
        r is Err ==> (r matches Err(e) && e is Processing),
        (1 <= w && w <= 65535 && 1 <= h && h <= 65535) ==> r is Ok,
{
    let mut cursor = std::io::Cursor::new(Vec::new());
    let mut encoder = image::codecs::jpeg::JpegEncoder::new_with_quality(&mut cursor, quality);
    match encoder.encode(data, w, h, image::ExtendedColorType::Rgb8) {
        Ok(()) => Ok(cursor.into_inner()),
        Err(e) => Err(Error::Processing(format!("{e}"))),
    }
}

/// Relies on the base64 crate: `Engine::encode` with the standard padded
/// alphabet. The text depends on the input bytes alone.
#[verifier::external_body]
pub(crate) fn base64_encode(data: &Vec<u8>) -> (r: String)
    ensures
        r@ == base64_of(data@),
{
    base64::Engine::encode(&base64::engine::general_purpose::STANDARD, data.as_slice())
}

} // verus!
