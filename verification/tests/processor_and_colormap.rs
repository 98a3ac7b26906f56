use base64::Engine;
use inksep::colormap::ColorMap;
use inksep::processes::apply_colormap;
use inksep::processor::ColorProcessor;
use inksep::raster::{Raster, Rgba8};

fn px(r: u8, g: u8, b: u8, a: u8) -> Rgba8 {
    Rgba8 { r, g, b, a }
}

#[test]
fn empty_gradient_returns_the_pixel_unchanged() {
    let proc = ColorProcessor::new(vec![]);
    for p in [px(0, 0, 0, 255), px(10, 200, 30, 7), px(255, 255, 255, 1)] {
        assert_eq!(proc.process_pixel(&p), p);
    }
}

#[test]
fn transparent_pixels_pass_through() {
    let proc = ColorProcessor::new(vec![px(200, 30, 10, 255)]);
    let p = px(90, 80, 70, 0);
    assert_eq!(proc.process_pixel(&p), p);
}

#[test]
fn monotone_white_source_hits_the_white_endpoint() {
    let proc = ColorProcessor::new(vec![px(200, 30, 10, 255)]);
    let out = proc.process_pixel(&px(255, 255, 255, 255));
    assert_eq!(out, px(255, 255, 255, 255));
}

#[test]
fn monotone_black_source_returns_the_stop_exactly() {
    let stop = px(200, 30, 10, 255);
    let proc = ColorProcessor::new(vec![stop]);
    let out = proc.process_pixel(&px(0, 0, 0, 255));
    assert_eq!(out, stop);
}

#[test]
fn equal_stops_blend_to_themselves() {
    // Blending a colour with itself is the identity at every gray value,
    // even for the darkest stops.
    for stop in [px(1, 1, 1, 255), px(7, 3, 5, 9), px(200, 30, 10, 255)] {
        let proc = ColorProcessor::new(vec![stop, stop]);
        for source in [px(0, 0, 0, 255), px(130, 64, 7, 20), px(255, 255, 255, 255)] {
            assert_eq!(proc.process_pixel(&source), stop);
        }
    }
}

#[test]
fn duotone_endpoints_hit_their_stops() {
    let dark = px(10, 20, 120, 255);
    let light = px(250, 240, 20, 255);
    let proc = ColorProcessor::new(vec![dark, light]);
    // A fully black source sits at ratio zero, a fully white one at the
    // full ratio: both endpoints are hit exactly.
    let lo = proc.process_pixel(&px(0, 0, 0, 255));
    assert_eq!(lo, dark);
    let hi = proc.process_pixel(&px(255, 255, 255, 255));
    assert_eq!(hi, light);
}

#[test]
fn multi_tone_selects_the_outer_segments_at_the_ends() {
    let stops = vec![px(0, 0, 200, 255), px(0, 200, 0, 255), px(200, 0, 0, 255)];
    let proc = ColorProcessor::new(stops.clone());
    let lo = proc.process_pixel(&px(0, 0, 0, 255));
    assert_eq!(lo, stops[0]);
    let hi = proc.process_pixel(&px(255, 255, 255, 255));
    assert_eq!(hi, stops[2]);
}

#[test]
fn processing_is_deterministic() {
    let proc = ColorProcessor::new(vec![px(1, 2, 3, 4), px(99, 88, 77, 66)]);
    let p = px(120, 40, 220, 200);
    assert_eq!(proc.process_pixel(&p), proc.process_pixel(&p));
}

#[test]
fn hex_parsing_reads_components() {
    assert_eq!(ColorMap::hex_to_rgb("#ff8800"), (255, 136, 0));
    assert_eq!(ColorMap::hex_to_rgb("00FF7f"), (0, 255, 127));
    assert_eq!(ColorMap::hex_to_rgb("##123456"), (18, 52, 86));
}

#[test]
fn malformed_hex_falls_back_to_white() {
    assert_eq!(ColorMap::hex_to_rgb(""), (255, 255, 255));
    assert_eq!(ColorMap::hex_to_rgb("#xyz123"), (255, 255, 35));
    assert_eq!(ColorMap::hex_to_rgb("#abc"), (171, 255, 255));
    assert_eq!(ColorMap::hex_to_rgb("not a colour"), (255, 255, 255));
}

#[test]
fn colormap_produces_a_png_data_url() {
    // A 2x1 image: one black pixel (shows the colour), one white (stays white).
    let img = Raster::new(2, 1, vec![0, 0, 0, 255, 255, 255, 255, 255]).unwrap();
    let url = apply_colormap(img, "#ff0000").unwrap();
    let prefix = "data:image/png;base64,";
    assert!(url.starts_with(prefix));
    let bytes = base64::engine::general_purpose::STANDARD
        .decode(&url[prefix.len()..])
        .unwrap();
    // PNG signature.
    assert_eq!(&bytes[0..8], &[0x89, b'P', b'N', b'G', 0x0d, 0x0a, 0x1a, 0x0a]);
    // Decode the PNG back and check the recoloured pixels.
    let decoded = image::load_from_memory(&bytes).unwrap().to_rgba8();
    assert_eq!(decoded.width(), 2);
    assert_eq!(decoded.height(), 1);
    // Black pixel: gray = 0, inverted = 255, so the channel shows the colour.
    assert_eq!(decoded.get_pixel(0, 0).0, [255, 0, 0, 255]);
    // White pixel: gray = 255, inverted = 0, so every channel stays white.
    assert_eq!(decoded.get_pixel(1, 0).0, [255, 255, 255, 255]);
}
