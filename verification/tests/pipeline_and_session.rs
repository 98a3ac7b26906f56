use inksep::errors::Error;
use inksep::export::{export_file_name, page_label};
use inksep::processes::{
    channel_file_name, channel_name, encode_channel_jpeg, process_image, process_image_background,
};
use inksep::commands::{complete_response, image_name_of, image_type_of, process_selected};
use inksep::processes::{recolor_stage, ProcessResult};
use inksep::raster::{GrayRaster, Raster};
use inksep::rgb::{RgbChannel, split_channels as split_rgb};
use inksep::state::{AppStateInner, ImageEffect, ImageFilter, ProcessSettings, ProcessingStatus};

fn solid(w: usize, h: usize, px: [u8; 4]) -> Raster {
    let mut data = Vec::new();
    for _ in 0..w * h {
        data.extend_from_slice(&px);
    }
    Raster::new(w, h, data).unwrap()
}

fn settings(
    filter: Option<ImageFilter>,
    effect: Option<ImageEffect>,
) -> ProcessSettings {
    ProcessSettings { colors: None, effect, filter }
}

#[test]
fn solid_red_separates_into_the_expected_plates() {
    // End to end: a 4x4 solid red raster, all four channels, no filter or
    // effect. The cyan plate carries full ink (dark); magenta, yellow and
    // black stay light.
    let img = solid(4, 4, [255, 0, 0, 255]);
    let plates = process_image(&img, &settings(None, None), None).unwrap();
    assert_eq!(plates.len(), 4);
    assert!(plates[0].data.iter().all(|&v| v == 0), "cyan must be fully dark");
    assert!(plates[1].data.iter().all(|&v| v == 255), "magenta must be fully light");
    assert!(plates[2].data.iter().all(|&v| v == 255), "yellow must be fully light");
    assert!(plates[3].data.iter().all(|&v| v == 255), "black must be fully light");
    for p in &plates {
        assert_eq!(p.width, 4);
        assert_eq!(p.height, 4);
    }
}

#[test]
fn background_separation_always_yields_four_plates() {
    let img = solid(3, 5, [10, 200, 30, 255]);
    let plates = process_image_background(&img).unwrap();
    assert_eq!(plates.len(), 4);
    for p in &plates {
        assert_eq!((p.width, p.height), (3, 5));
    }
}

#[test]
fn cache_is_used_when_no_filter_is_requested() {
    let img = solid(2, 2, [255, 0, 0, 255]);
    // A deliberately wrong "cached separation": recognisable bytes.
    let bogus = vec![
        GrayRaster::new(2, 2, vec![7; 4]).unwrap(),
        GrayRaster::new(2, 2, vec![9; 4]).unwrap(),
    ];
    let out = process_image(&img, &settings(None, None), Some(&bogus)).unwrap();
    // Without a filter the cached plates are reused untouched.
    assert_eq!(out.len(), 2);
    assert_eq!(out[0].data, vec![7; 4]);
    assert_eq!(out[1].data, vec![9; 4]);
}

#[test]
fn filter_invalidates_the_cache() {
    let img = solid(2, 2, [255, 0, 0, 255]);
    let bogus = vec![GrayRaster::new(2, 2, vec![7; 4]).unwrap()];
    let out = process_image(&img, &settings(Some(ImageFilter::Invert), None), Some(&bogus))
        .unwrap();
    // The separation is recomputed from the filtered image: four plates,
    // not the single bogus one. Inverted red is cyan, so now the cyan
    // plate is light and both magenta and yellow are dark.
    assert_eq!(out.len(), 4);
    assert!(out[0].data.iter().all(|&v| v == 255));
    assert!(out[1].data.iter().all(|&v| v == 0));
    assert!(out[2].data.iter().all(|&v| v == 0));
}

#[test]
fn empty_cached_separation_is_a_processing_error() {
    let img = solid(2, 2, [1, 2, 3, 255]);
    let empty: Vec<GrayRaster> = vec![];
    let r = process_image(&img, &settings(None, None), Some(&empty));
    assert!(matches!(r, Err(Error::Processing(_))));
}

#[test]
fn effect_stage_applies_to_cached_plates() {
    let img = solid(2, 2, [0, 0, 0, 255]);
    let cached = vec![GrayRaster::new(2, 2, vec![10, 200, 129, 90]).unwrap()];
    let out = process_image(&img, &settings(None, Some(ImageEffect::Threshold)), Some(&cached))
        .unwrap();
    assert_eq!(out.len(), 1);
    assert_eq!(out[0].data, vec![0, 255, 255, 0]);
}

#[test]
fn session_load_resets_the_cache_slot() {
    let mut state = AppStateInner::new();
    assert_eq!(state.processing_status, ProcessingStatus::Idle);
    let plates = vec![GrayRaster::new(1, 1, vec![5]).unwrap()];
    state.load_image("a.png".to_string(), "png".to_string(), "a".to_string());
    state.store_separation(&"a.png".to_string(), plates);
    assert!(state.cache_for(&"a.png".to_string()).is_some());
    // Loading a new image invalidates the slot.
    state.load_image("b.png".to_string(), "png".to_string(), "b".to_string());
    assert!(state.cache_for(&"a.png".to_string()).is_none());
    assert!(state.cache_for(&"b.png".to_string()).is_none());
    assert_eq!(state.processing_status, ProcessingStatus::Processing);
    assert_eq!(state.image_path.as_deref(), Some("b.png"));
}

#[test]
fn stale_background_results_are_discarded() {
    let mut state = AppStateInner::new();
    state.load_image("new.png".to_string(), "png".to_string(), "new".to_string());
    // A separation computed for a previously loaded image lands late.
    let stale = vec![GrayRaster::new(1, 1, vec![5]).unwrap()];
    state.store_separation(&"old.png".to_string(), stale);
    assert!(state.cache_for(&"old.png".to_string()).is_none());
    assert!(state.cache_for(&"new.png".to_string()).is_none());
    // A fresh one for the current image is kept.
    let fresh = vec![GrayRaster::new(1, 1, vec![6]).unwrap()];
    state.store_separation(&"new.png".to_string(), fresh);
    let cached = state.cache_for(&"new.png".to_string()).unwrap();
    assert_eq!(cached[0].data, vec![6]);
}

#[test]
fn channel_names_follow_position() {
    assert_eq!(channel_name(0), "cyan");
    assert_eq!(channel_name(1), "magenta");
    assert_eq!(channel_name(2), "yellow");
    assert_eq!(channel_name(3), "black");
    assert_eq!(channel_name(7), "unknown");
}

#[test]
fn channel_file_names_compose() {
    assert_eq!(channel_file_name("proc", 0), "proc_cyan_0.jpeg");
    assert_eq!(channel_file_name("img", 3), "img_black_3.jpeg");
}

#[test]
fn export_names_and_labels_compose() {
    assert_eq!(export_file_name("base", "cyan", None, "png"), "base_cyan.png");
    assert_eq!(
        export_file_name("base", "black", Some("Midnight Blue"), "png"),
        "base_black_Midnight_Blue.png"
    );
    assert_eq!(page_label("cyan", None), "Channel: cyan");
    assert_eq!(page_label("yellow", Some("Sunflower")), "Channel: yellow - Sunflower");
}

#[test]
fn jpeg_encoding_yields_jpeg_bytes() {
    let plate = GrayRaster::new(2, 2, vec![0, 85, 170, 255]).unwrap();
    let bytes = encode_channel_jpeg(&plate, 70).unwrap();
    assert_eq!(&bytes[0..2], &[0xff, 0xd8]);
    // And it really encodes the plate: a different plate gives different bytes.
    let other = GrayRaster::new(2, 2, vec![255, 255, 255, 255]).unwrap();
    let other_bytes = encode_channel_jpeg(&other, 70).unwrap();
    assert_ne!(bytes, other_bytes);
}

#[test]
fn error_messages_name_their_kind() {
    assert_eq!(Error::NoImageSelected.message(), "No image selected");
    assert_eq!(
        Error::Processing("broken".to_string()).message(),
        "Image processing error: broken"
    );
    assert_eq!(Error::InvalidInput("nope".to_string()).message(), "Invalid input: nope");
    assert_eq!(Error::Io("disk".to_string()).message(), "I/O error: disk");
    assert_eq!(Error::Image("depth".to_string()).message(), "Image error: depth");
}

#[test]
fn treatment_processes_well_formed_images() {
    let img = solid(2, 2, [5, 6, 7, 255]);
    let treatment = inksep::treatment::ImageTreatment::new(&img).unwrap();
    assert!(treatment.process_channel().is_some());
    let plates = treatment.process().unwrap();
    assert_eq!(plates.len(), 4);
}

#[test]
fn path_parsing_takes_the_last_separator() {
    assert_eq!(image_type_of("/a/b/photo.final.png"), "png");
    assert_eq!(image_type_of("noext"), "");
    assert_eq!(image_name_of("/a/b/photo.png"), "photo.png");
    assert_eq!(image_name_of("bare"), "");
}

#[test]
fn process_selected_requires_a_loaded_image() {
    let mut state = AppStateInner::new();
    let img = solid(2, 2, [1, 2, 3, 255]);
    let r = process_selected(&mut state, &img, settings(None, None));
    assert!(matches!(r, Err(Error::NoImageSelected)));
}

#[test]
fn process_selected_records_settings_and_separates() {
    let mut state = AppStateInner::new();
    state.load_image("red.png".to_string(), "png".to_string(), "red".to_string());
    let img = solid(2, 2, [255, 0, 0, 255]);
    let plates = process_selected(&mut state, &img, settings(None, None)).unwrap();
    assert_eq!(plates.len(), 4);
    assert!(plates[0].data.iter().all(|&v| v == 0));
    assert!(state.process_settings.is_some());
}

#[test]
fn complete_response_stores_and_echoes_artifacts() {
    let mut state = AppStateInner::new();
    state.load_image("x.png".to_string(), "png".to_string(), "x".to_string());
    let results = vec![ProcessResult {
        channel: "cyan".to_string(),
        image_path: "/tmp/x_cyan_0.jpeg".to_string(),
    }];
    let resp = complete_response(&mut state, results);
    let echoed = resp.processed_images.unwrap();
    assert_eq!(echoed.len(), 1);
    assert_eq!(echoed[0].channel, "cyan");
    assert_eq!(resp.image_path, "x.png");
    assert_eq!(resp.image_name, "x");
    let stored = state.processed_images.unwrap();
    assert_eq!(stored[0].image_path, "/tmp/x_cyan_0.jpeg");
}

#[test]
fn rgb_split_renders_each_primary() {
    let img = solid(2, 1, [200, 100, 50, 255]);
    let plates = split_rgb(&img, RgbChannel::all());
    assert_eq!(plates.len(), 3);
    assert_eq!(plates[0].get_pixel(0, 0).r, 200);
    assert_eq!(plates[1].get_pixel(0, 0).g, 100);
    assert_eq!(plates[2].get_pixel(0, 0).b, 50);
    let red_only = split_rgb(&img, RgbChannel::Red);
    assert_eq!(red_only.len(), 1);
    let union = RgbChannel::Red.flags().or(RgbChannel::Blue);
    assert!(union.contains(RgbChannel::Red));
    assert!(!union.contains(RgbChannel::Green));
    assert!(RgbChannel::All.contains(RgbChannel::Blue));
}

#[test]
fn recolor_stage_skips_without_colours() {
    let plates = vec![GrayRaster::new(1, 1, vec![100]).unwrap()];
    assert!(recolor_stage(&plates, &None).is_none());
}

#[test]
fn recolor_stage_maps_tones_onto_the_gradient() {
    let plates = vec![GrayRaster::new(2, 1, vec![0, 255]).unwrap()];
    let colors = Some(vec!["#c81e0a".to_string()]);
    let out = recolor_stage(&plates, &colors).unwrap();
    assert_eq!(out.len(), 1);
    // A black tone hits the stop colour (200, 30, 10) exactly, a white
    // tone the white endpoint.
    let dark = out[0].get_pixel(0, 0);
    assert_eq!((dark.r, dark.g, dark.b, dark.a), (200, 30, 10, 255));
    let light = out[0].get_pixel(1, 0);
    assert_eq!((light.r, light.g, light.b, light.a), (255, 255, 255, 255));
}
