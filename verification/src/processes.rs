use vstd::prelude::*;
use crate::colormap::ColorMap;
use crate::effects::{apply_effect, is_effect_applied};
use crate::encode::{jpeg_bytes_of, jpeg_encode_rgb};
use crate::errors::Error;
use crate::filters::{apply_filter, is_filter_applied};
use crate::processor::{ColorProcessor, spec_process_pixel};
use crate::raster::{GrayRaster, Raster, Rgba8, lemma_next_row, lemma_rc_index, lemma_rows_below};
use crate::state::{ImageEffect, ProcessSettings};
use crate::treatment::ImageTreatment;

verus! {

/// One produced channel artifact: the canonical channel name and the path
/// the encoded raster was written to.
#[derive(Debug)]
pub struct ProcessResult {
    pub channel: String,
    pub image_path: String,
}

/// The canonical name of the channel at position `i`: positional index
/// determines channel identity for downstream labelling.
pub open spec fn spec_channel_name(i: int) -> Seq<char> {
    if i == 0 {
        "cyan"@
    } else if i == 1 {
        "magenta"@
    } else if i == 2 {
        "yellow"@
    } else if i == 3 {
        "black"@
    } else {
        "unknown"@
    }
}

/// Yields the canonical channel name for a position.
pub fn channel_name(i: usize) -> (r: String)
    ensures
        r@ == spec_channel_name(i as int),
{
    if i == 0 {
        String::from_str("cyan")
    } else if i == 1 {
        String::from_str("magenta")
    } else if i == 2 {
        String::from_str("yellow")
    } else if i == 3 {
        String::from_str("black")
    } else {
        String::from_str("unknown")
    }
}

/// The decimal digit character for a position below ten.
pub open spec fn spec_digit(i: int) -> Seq<char> {
    if i == 0 {
        "0"@
    } else if i == 1 {
        "1"@
    } else if i == 2 {
        "2"@
    } else if i == 3 {
        "3"@
    } else if i == 4 {
        "4"@
    } else if i == 5 {
        "5"@
    } else if i == 6 {
        "6"@
    } else if i == 7 {
        "7"@
    } else if i == 8 {
        "8"@
    } else {
        "9"@
    }
}

/// The file name one produced channel is saved under:
/// `{prefix}_{channel}_{index}.jpeg`.
pub fn channel_file_name(prefix: &str, i: usize) -> (r: String)
    requires
        i < 10,
    ensures
        r@ == prefix@ + "_"@ + spec_channel_name(i as int) + "_"@ + spec_digit(i as int)
            + ".jpeg"@,
{
    let mut name = String::from_str(prefix);
    name.append("_");
    let ch = channel_name(i);
    name.append(ch.as_str());
    name.append("_");
    let digit = if i == 0 {
        "0"
    } else if i == 1 {
        "1"
    } else if i == 2 {
        "2"
    } else if i == 3 {
        "3"
    } else if i == 4 {
        "4"
    } else if i == 5 {
        "5"
    } else if i == 6 {
        "6"
    } else if i == 7 {
        "7"
    } else if i == 8 {
        "8"
    } else {
        "9"
    };
    name.append(digit);
    name.append(".jpeg");
    name
}

/// The JPEG quality the core selects for final per-channel export.
pub const EXPORT_JPEG_QUALITY: u8 = 70;

/// The RGB expansion of a single-channel buffer: each tone repeated for
/// red, green and blue.
pub open spec fn spec_gray_rgb_bytes(s: Seq<u8>) -> Seq<u8> {
    Seq::new(3 * s.len(), |i: int| s[i / 3])
}

/// Expands one plate into an RGB byte buffer.
fn plate_to_rgb(plate: &GrayRaster) -> (r: Vec<u8>)
    requires
        plate.wf(),
    ensures
        r@ == spec_gray_rgb_bytes(plate.data@),
{
    let n = plate.data.len();
    let mut out: Vec<u8> = Vec::new();
    let mut i: usize = 0;
    while i < n
        invariant
            plate.wf(),
            n == plate.data.len(),
            i <= n,
            out.len() == 3 * i,
            forall|j: int| 0 <= j < 3 * i ==> out@[j] == plate.data@[#[trigger] (j / 3)],
        decreases n - i,
    {
        proof {
            crate::raster::lemma_byte_in_pixel(i as int, 0);
            assert((3 * (i as int)) / 3 == i as int && (3 * (i as int) + 1) / 3 == i as int
                && (3 * (i as int) + 2) / 3 == i as int) by (nonlinear_arith);
        }
        let v = plate.data[i];
        out.push(v);
        out.push(v);
        out.push(v);
        i += 1;
    }
    proof {
        assert(out@ =~= spec_gray_rgb_bytes(plate.data@));
    }
    out
}

/// Encodes one plate as an RGB JPEG at the given quality. Within the JPEG
/// dimension range of 1 through 65535 the encoding succeeds; geometry
/// beyond the encoder's range surfaces as a processing error.
pub fn encode_channel_jpeg(plate: &GrayRaster, quality: u8) -> (r: Result<Vec<u8>, Error>)
    requires
        plate.wf(),
    ensures
        r matches Ok(b) ==> b@ == jpeg_bytes_of(
            spec_gray_rgb_bytes(plate.data@),
            plate.width as int,
            plate.height as int,
            quality as int,
        ),
        r is Err ==> (r matches Err(e) && e is Processing),
        (plate.width <= 65535 && plate.height <= 65535) ==> r is Ok,
{
    let w64 = plate.width as u64;
    let h64 = plate.height as u64;
    if w64 > 0xffff_ffff || h64 > 0xffff_ffff {
        return Err(Error::Processing(String::from_str("image too large to encode")));
    }
    let rgb = plate_to_rgb(plate);
    jpeg_encode_rgb(&rgb, plate.width as u32, plate.height as u32, quality)
}

/// `a` holds exactly the same image as `b`: same geometry, same bytes.
pub open spec fn spec_same_plate(a: GrayRaster, b: GrayRaster) -> bool {
    &&& a.width == b.width
    &&& a.height == b.height
    &&& a.data@ == b.data@
}

/// The effect stage: each output plate is the requested effect of the
/// matching input plate, or the input plate itself when no effect was
/// requested.
pub open spec fn spec_effect_stage(
    out: Seq<GrayRaster>,
    plates: Seq<GrayRaster>,
    effect: Option<ImageEffect>,
) -> bool {
    &&& out.len() == plates.len()
    &&& forall|j: int|
        0 <= j < plates.len() ==> (match effect {
            Some(e) => is_effect_applied(#[trigger] out[j], plates[j], e),
            None => spec_same_plate(out[j], plates[j]),
        })
}

/// What a full pipeline run yields, covering the cache policy exactly. A
/// cached separation may serve the run only when no filter is requested —
/// a filter changes the pre-separation image and invalidates any prior
/// separation. A present-but-empty cache entry is a domain error; otherwise
/// the run succeeds, with the separation of the (optionally filtered)
/// source passed through the effect stage.
pub open spec fn is_pipeline_result(
    r: Result<Vec<GrayRaster>, Error>,
    source: Raster,
    settings: ProcessSettings,
    cached: Option<Seq<GrayRaster>>,
) -> bool {
    if settings.filter is None && cached is Some {
        let c = cached.unwrap();
        if c.len() == 0 {
            r matches Err(e) && e is Processing
        } else {
            r matches Ok(out) && spec_effect_stage(out@, c, settings.effect)
        }
    } else {
        r matches Ok(out) && exists|mid: Raster, plates: Seq<GrayRaster>|
            {
                &&& #[trigger] mid.wf()
                &&& #[trigger] plates.len() == 4
                &&& match settings.filter {
                    Some(f) => is_filter_applied(mid, source, f) && mid.wf(),
                    None => mid == source,
                }
                &&& forall|j: int|
                    0 <= j < 4 ==> crate::cmyk::is_plate_of(#[trigger] plates[j], mid, j)
                &&& spec_effect_stage(out@, plates, settings.effect)
            }
    }
}

/// Applies the effect stage to a sequence of plates.
fn effect_stage(plates: &Vec<GrayRaster>, effect: &Option<ImageEffect>) -> (out: Vec<GrayRaster>)
    requires
        forall|j: int| 0 <= j < plates.len() ==> (#[trigger] plates@[j]).wf(),
    ensures
        spec_effect_stage(out@, plates@, *effect),
{
    let mut out: Vec<GrayRaster> = Vec::new();
    let n = plates.len();
    let mut j: usize = 0;
    while j < n
        invariant
            n == plates.len(),
            j <= n,
            out.len() == j,
            forall|i: int| 0 <= i < n ==> (#[trigger] plates@[i]).wf(),
            forall|i: int|
                0 <= i < j ==> (match *effect {
                    Some(e) => is_effect_applied(#[trigger] out@[i], plates@[i], e),
                    None => spec_same_plate(out@[i], plates@[i]),
                }),
        decreases n - j,
    {
        let plate = &plates[j];
        match effect {
            Some(e) => {
                out.push(apply_effect(e, plate));
            },
            None => {
                let copied = crate::effects::Original.apply(plate);
                out.push(copied);
            },
        }
        j += 1;
    }
    out
}

/// Runs one pipeline pass over an already decoded source raster:
/// optional filter, channel separation (reusing a cached separation when
/// the policy allows), then the optional per-plate effect. File decoding
/// and persistence happen at the caller's edge.
pub fn process_image(
    source: &Raster,
    settings: &ProcessSettings,
    cached: Option<&Vec<GrayRaster>>,
) -> (r: Result<Vec<GrayRaster>, Error>)
    requires
        source.wf(),
        cached matches Some(c) ==> forall|j: int| 0 <= j < c.len() ==> (#[trigger] c@[j]).wf(),
    ensures
        is_pipeline_result(
            r,
            *source,
            *settings,
            match cached {
                Some(c) => Some(c@),
                None => None,
            },
        ),
{
    if settings.filter.is_none() {
        if let Some(channels) = cached {
            if channels.len() == 0 {
                return Err(Error::Processing(String::from_str("No channels found")));
            }
            return Ok(effect_stage(channels, &settings.effect));
        }
    }
    let ghost mut mid: Raster = *source;
    let plates: Vec<GrayRaster> = match &settings.filter {
        Some(f) => {
            let filtered = apply_filter(f, source);
            proof {
                mid = filtered;
            }
            let t = match ImageTreatment::new(&filtered) {
                Ok(t) => t,
                Err(e) => {
                    return Err(e);
                },
            };
            match t.process() {
                Ok(p) => p,
                Err(e) => {
                    return Err(e);
                },
            }
        },
        None => {
            let t = match ImageTreatment::new(source) {
                Ok(t) => t,
                Err(e) => {
                    return Err(e);
                },
            };
            match t.process() {
                Ok(p) => p,
                Err(e) => {
                    return Err(e);
                },
            }
        },
    };
    proof {
        assert(forall|j: int| 0 <= j < plates.len() ==> (#[trigger] plates@[j]).wf());
    }
    let out = effect_stage(&plates, &settings.effect);
    proof {
        let ps = plates@;
        assert(mid.wf());
        assert(match settings.filter {
            Some(f) => is_filter_applied(mid, *source, f) && mid.wf(),
            None => mid == *source,
        });
        assert(ps.len() == 4);
        assert(forall|j: int| 0 <= j < 4 ==> crate::cmyk::is_plate_of(#[trigger] ps[j], mid, j));
        assert(spec_effect_stage(out@, ps, settings.effect));
    }
    Ok(out)
}

/// The gradient stop a hex colour string stands for: its RGB components
/// with full opacity; malformed strings fall back to white rather than
/// failing the whole run.
pub open spec fn spec_gradient_stop(s: Seq<char>) -> Rgba8 {
    let rgb = crate::colormap::spec_hex_to_rgb(s);
    Rgba8 { r: rgb.0 as u8, g: rgb.1 as u8, b: rgb.2 as u8, a: 255u8 }
}

/// Parses the ordered gradient stops of a run's colour settings.
pub fn parse_gradient(colors: &Vec<String>) -> (stops: Vec<Rgba8>)
    ensures
        stops@.len() == colors@.len(),
        forall|i: int|
            0 <= i < colors@.len() ==> stops@[i] == spec_gradient_stop(
                #[trigger] colors@[i]@),
{
    let mut stops: Vec<Rgba8> = Vec::new();
    let n = colors.len();
    let mut i: usize = 0;
    while i < n
        invariant
            n == colors.len(),
            i <= n,
            stops.len() == i,
            forall|j: int|
                0 <= j < i ==> stops@[j] == spec_gradient_stop(#[trigger] colors@[j]@),
        decreases n - i,
    {
        let (r, g, b) = crate::colormap::ColorMap::hex_to_rgb(colors[i].as_str());
        stops.push(Rgba8 { r, g, b, a: 255 });
        i += 1;
    }
    stops
}

/// `out` is `plate` remapped through the gradient: same geometry, each gray
/// tone turned into the gradient colour of an opaque gray source pixel.
pub open spec fn is_recoloured(out: Raster, plate: GrayRaster, stops: Seq<Rgba8>) -> bool {
    &&& out.wf()
    &&& out.width == plate.width
    &&& out.height == plate.height
    &&& forall|x: int, y: int|
        0 <= x < plate.width && 0 <= y < plate.height
            ==> out.spec_pixel(x, y) == spec_process_pixel(
                stops,
                Rgba8 {
                    r: #[trigger] plate.spec_at(x, y),
                    g: plate.spec_at(x, y),
                    b: plate.spec_at(x, y),
                    a: 255u8,
                },
            )
}

/// Remaps one plate through the gradient.
fn recolor_plate(plate: &GrayRaster, processor: &ColorProcessor) -> (out: Raster)
    requires
        plate.wf(),
    ensures
        is_recoloured(out, *plate, processor.colors@),
{
    let w = plate.width;
    let h = plate.height;
    let mut data: Vec<u8> = Vec::new();
    let mut y: usize = 0;
    while y < h
        invariant
            plate.wf(),
            w == plate.width,
            h == plate.height,
            y <= h,
            data.len() == 4 * (y * w),
            forall|yy: int, xx: int|
                0 <= yy < y && 0 <= xx < w
                    ==> crate::raster::spec_pixel_of(data@, w as int, xx, yy)
                        == spec_process_pixel(
                        processor.colors@,
                        Rgba8 {
                            r: #[trigger] plate.spec_at(xx, yy),
                            g: plate.spec_at(xx, yy),
                            b: plate.spec_at(xx, yy),
                            a: 255u8,
                        },
                    ),
        decreases h - y,
    {
        let mut x: usize = 0;
        while x < w
            invariant
                plate.wf(),
                w == plate.width,
                h == plate.height,
                y < h,
                x <= w,
                data.len() == 4 * (y * w + x),
                forall|yy: int, xx: int|
                    0 <= yy < y && 0 <= xx < w
                        ==> crate::raster::spec_pixel_of(data@, w as int, xx, yy)
                            == spec_process_pixel(
                            processor.colors@,
                            Rgba8 {
                                r: #[trigger] plate.spec_at(xx, yy),
                                g: plate.spec_at(xx, yy),
                                b: plate.spec_at(xx, yy),
                                a: 255u8,
                            },
                        ),
                forall|xx: int|
                    0 <= xx < x
                        ==> crate::raster::spec_pixel_of(data@, w as int, xx, y as int)
                            == spec_process_pixel(
                            processor.colors@,
                            Rgba8 {
                                r: #[trigger] plate.spec_at(xx, y as int),
                                g: plate.spec_at(xx, y as int),
                                b: plate.spec_at(xx, y as int),
                                a: 255u8,
                            },
                        ),
            decreases w - x,
        {
            proof {
                lemma_rc_index(x as int, y as int, w as int, h as int);
                lemma_rows_below(y as int, w as int);
            }
            let v = plate.get(x, y);
            let src = Rgba8 { r: v, g: v, b: v, a: 255 };
            let px = processor.process_pixel(&src);
            data.push(px.r);
            data.push(px.g);
            data.push(px.b);
            data.push(px.a);
            x += 1;
        }
        proof {
            lemma_next_row(y as int, w as int);
        }
        y += 1;
    }
    proof {
        assert((h as int) * (w as int) == (w as int) * (h as int)) by (nonlinear_arith);
        lemma_rows_below(h as int, w as int);
    }
    Raster { width: w, height: h, data }
}

/// The optional recolour stage of a run: absent colour settings mean the
/// stage is skipped, and present ones remap every plate through the
/// parsed gradient.
pub fn recolor_stage(plates: &Vec<GrayRaster>, colors: &Option<Vec<String>>) -> (r: Option<
    Vec<Raster>,
>)
    requires
        forall|j: int| 0 <= j < plates.len() ==> (#[trigger] plates@[j]).wf(),
    ensures
        r is Some <==> colors is Some,
        r matches Some(out) ==> (colors matches Some(cs) && out@.len() == plates@.len()
            && forall|j: int|
            0 <= j < plates@.len() ==> is_recoloured(
                #[trigger] out@[j],
                plates@[j],
                cs@.map_values(|s: String| spec_gradient_stop(s@)),
            )),
{
    let cs = match colors {
        Some(cs) => cs,
        None => {
            return None;
        },
    };
    let stops = parse_gradient(cs);
    proof {
        assert(stops@ =~= cs@.map_values(|s: String| spec_gradient_stop(s@)));
    }
    let processor = ColorProcessor::new(stops);
    let mut out: Vec<Raster> = Vec::new();
    let n = plates.len();
    let mut j: usize = 0;
    while j < n
        invariant
            n == plates.len(),
            j <= n,
            out.len() == j,
            forall|i: int| 0 <= i < n ==> (#[trigger] plates@[i]).wf(),
            forall|i: int|
                0 <= i < j ==> is_recoloured(#[trigger] out@[i], plates@[i],
                    processor.colors@),
            processor.colors@ == cs@.map_values(|s: String| spec_gradient_stop(s@)),
        decreases n - j,
    {
        out.push(recolor_plate(&plates[j], &processor));
        j += 1;
    }
    Some(out)
}

/// Separates the channels of a freshly loaded image with no filter and no
/// effect, for the background pre-separation that fills the cache slot.
pub fn process_image_background(source: &Raster) -> (r: Result<Vec<GrayRaster>, Error>)
    requires
        source.wf(),
    ensures
        r matches Ok(plates) && plates.len() == 4
            && forall|j: int| 0 <= j < 4 ==> crate::cmyk::is_plate_of(
                #[trigger] plates@[j], *source, j),
{
    match ImageTreatment::new(source) {
        Ok(t) => t.process(),
        Err(e) => Err(e),
    }
}

/// Recolours an image by its luminance with a single hex colour and yields
/// the result as a base64 PNG data URL. Within the PNG dimension range the
/// run succeeds.
pub fn apply_colormap(image: Raster, hex: &str) -> (r: Result<String, Error>)
    requires
        image.wf(),
    ensures
        (image.width <= 0x7fff_ffff && image.height <= 0x7fff_ffff) ==> r is Ok,
        r matches Ok(s) ==> ({
            let rgb = crate::colormap::spec_hex_to_rgb(hex@);
            s@ == "data:image/png;base64,"@ + crate::encode::base64_of(
                crate::encode::png_bytes_of(
                    crate::colormap::spec_colormap_bytes(image.data@, rgb.0, rgb.1, rgb.2),
                    image.width as int,
                    image.height as int,
                ),
            )
        }),
        r is Err ==> (r matches Err(e) && e is Processing),
{
    let colormap = ColorMap::new(image, String::from_str(hex));
    match colormap.apply() {
        Ok(processed_image) => Ok(processed_image.base64),
        Err(e) => Err(e),
    }
}

} // verus!
