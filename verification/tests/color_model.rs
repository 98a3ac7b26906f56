use inksep::cmyk::{CmykChannels, cmyk_to_rgb, rgb_to_cmyk, split_channels};
use inksep::raster::Raster;

fn rgba(w: usize, h: usize, px: [u8; 4]) -> Raster {
    let mut data = Vec::new();
    for _ in 0..w * h {
        data.extend_from_slice(&px);
    }
    Raster::new(w, h, data).unwrap()
}

#[test]
fn black_maps_to_pure_key() {
    assert_eq!(rgb_to_cmyk(0, 0, 0), (0, 0, 0, 255));
}

#[test]
fn gray_maps_to_key_only() {
    for v in [1u8, 17, 85, 128, 200, 254, 255] {
        assert_eq!(rgb_to_cmyk(v, v, v), (0, 0, 0, 255 - v));
    }
}

#[test]
fn solid_red_conversion() {
    assert_eq!(rgb_to_cmyk(255, 0, 0), (0, 255, 255, 0));
}

#[test]
fn mixed_colour_conversion() {
    // max = 200; c = round(255 * 100/200) = 128; m = round(255 * 150/200) = 191.
    assert_eq!(rgb_to_cmyk(200, 100, 50), (0, 128, 191, 55));
}

#[test]
fn cmyk_to_rgb_endpoints() {
    assert_eq!(cmyk_to_rgb(0, 0, 0, 0), (255, 255, 255));
    assert_eq!(cmyk_to_rgb(0, 0, 0, 255), (0, 0, 0));
    assert_eq!(cmyk_to_rgb(255, 0, 0, 0), (0, 255, 255));
}

#[test]
fn conversion_is_deterministic() {
    assert_eq!(rgb_to_cmyk(12, 200, 99), rgb_to_cmyk(12, 200, 99));
}

#[test]
fn channel_flags_contain_and_union() {
    let cm = CmykChannels::cyan().or(CmykChannels::magenta());
    assert!(cm.contains(CmykChannels::cyan()));
    assert!(cm.contains(CmykChannels::magenta()));
    assert!(!cm.contains(CmykChannels::yellow()));
    assert!(!cm.contains(CmykChannels::black()));
    assert!(CmykChannels::all().contains(CmykChannels::black()));
    assert!(!CmykChannels::none().contains(CmykChannels::all()));
}

#[test]
fn split_full_selection_counts_and_geometry() {
    let img = rgba(3, 2, [10, 20, 30, 255]);
    let plates = split_channels(&img, CmykChannels::all());
    assert_eq!(plates.len(), 4);
    for p in &plates {
        assert_eq!(p.width, 3);
        assert_eq!(p.height, 2);
        assert_eq!(p.data.len(), 6);
    }
}

#[test]
fn split_subset_keeps_canonical_order() {
    let img = rgba(2, 2, [255, 0, 0, 255]);
    // Yellow and cyan requested out of order: results still come cyan first.
    let sel = CmykChannels::yellow().or(CmykChannels::cyan());
    let plates = split_channels(&img, sel);
    assert_eq!(plates.len(), 2);
    // Cyan plate of solid red is fully dark, yellow plate fully light.
    assert!(plates[0].data.iter().all(|&v| v == 0));
    assert!(plates[1].data.iter().all(|&v| v == 255));
}

#[test]
fn split_empty_selection_yields_empty_list() {
    let img = rgba(2, 2, [1, 2, 3, 255]);
    let plates = split_channels(&img, CmykChannels::none());
    assert_eq!(plates.len(), 0);
}

#[test]
fn transparent_pixels_are_white_on_every_plate() {
    let img = rgba(2, 3, [40, 80, 120, 0]);
    let plates = split_channels(&img, CmykChannels::all());
    assert_eq!(plates.len(), 4);
    for p in &plates {
        assert!(p.data.iter().all(|&v| v == 255));
    }
}

#[test]
fn pure_black_pixels_ink_only_the_key_plate() {
    let img = rgba(2, 2, [0, 0, 0, 255]);
    let plates = split_channels(&img, CmykChannels::all());
    for p in &plates[0..3] {
        assert!(p.data.iter().all(|&v| v == 255));
    }
    assert!(plates[3].data.iter().all(|&v| v == 0));
}

#[test]
fn raster_rejects_bad_geometry() {
    assert!(matches!(
        Raster::new(2, 2, vec![0u8; 15]),
        Err(inksep::errors::Error::InvalidInput(_))
    ));
    assert!(matches!(
        Raster::new(0, 2, vec![]),
        Err(inksep::errors::Error::InvalidInput(_))
    ));
    assert!(Raster::new(2, 2, vec![0u8; 16]).is_ok());
}
