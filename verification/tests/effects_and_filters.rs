use inksep::effects::{Dither, HalfTone, Original, Posterize, Threshold};
use inksep::filters::{
    Blur, Brighten, Contrast, Darken, Grayscale, Invert, Pixelate, Sepia, Sharpen,
};
use inksep::raster::{GrayRaster, Raster};

fn gray(w: usize, h: usize, data: Vec<u8>) -> GrayRaster {
    GrayRaster::new(w, h, data).unwrap()
}

fn rgba1(px: [u8; 4]) -> Raster {
    Raster::new(1, 1, px.to_vec()).unwrap()
}

#[test]
fn threshold_is_binary_for_any_input() {
    let img = gray(4, 2, vec![0, 1, 127, 128, 129, 200, 254, 255]);
    let out = Threshold.apply(&img);
    assert!(out.data.iter().all(|&v| v == 0 || v == 255));
    assert_eq!(out.data, vec![0, 0, 0, 0, 255, 255, 255, 255]);
}

#[test]
fn posterize_quantises_to_four_levels() {
    let img = gray(3, 2, vec![0, 84, 85, 170, 212, 255]);
    let out = Posterize.apply(&img);
    assert_eq!(out.data, vec![0, 0, 85, 170, 170, 255]);
}

#[test]
fn posterize_twice_equals_once() {
    let img = gray(4, 2, vec![3, 17, 99, 120, 171, 200, 230, 255]);
    let once = Posterize.apply(&img);
    let twice = Posterize.apply(&once);
    assert_eq!(once.data, twice.data);
}

#[test]
fn original_copies_exactly() {
    let img = gray(2, 2, vec![9, 8, 7, 6]);
    let out = Original.apply(&img);
    assert_eq!(out.data, img.data);
}

#[test]
fn dither_is_deterministic() {
    let data: Vec<u8> = (0..64u32).map(|i| ((i * 37) % 256) as u8).collect();
    let img = gray(8, 8, data);
    let a = Dither.apply(&img);
    let b = Dither.apply(&img);
    assert_eq!(a.data, b.data);
    assert!(a.data.iter().all(|&v| v == 0 || v == 255));
}

#[test]
fn dither_diffuses_error_to_the_right() {
    // First pixel 200 (above the cutoff) snaps white with error -55;
    // 7/16 of it lands on the second pixel: -24, so 0 - 24 stays black.
    let img = gray(2, 1, vec![200, 0]);
    let out = Dither.apply(&img);
    assert_eq!(out.data, vec![255, 0]);
}

#[test]
fn halftone_paints_dark_cells_and_leaves_light_cells() {
    let black = gray(6, 6, vec![0; 36]);
    let dotted = HalfTone.apply(&black);
    assert!(dotted.data.iter().all(|&v| v == 0));
    let white = gray(6, 6, vec![255; 36]);
    let empty = HalfTone.apply(&white);
    assert!(empty.data.iter().all(|&v| v == 255));
}

#[test]
fn halftone_leaves_partial_cells_white() {
    let img = gray(7, 7, vec![0; 49]);
    let out = HalfTone.apply(&img);
    // The 6x6 cell is painted; the seventh row and column stay white.
    for y in 0..7usize {
        for x in 0..7usize {
            let v = out.data[y * 7 + x];
            if x < 6 && y < 6 {
                assert_eq!(v, 0);
            } else {
                assert_eq!(v, 255);
            }
        }
    }
}

#[test]
fn invert_twice_restores_the_image() {
    let img = Raster::new(2, 1, vec![1, 2, 3, 4, 250, 130, 77, 0]).unwrap();
    let once = Invert.apply(&img);
    let twice = Invert.apply(&once);
    assert_eq!(twice.data, img.data);
}

#[test]
fn invert_flips_colour_and_keeps_alpha() {
    let out = Invert.apply(&rgba1([10, 20, 30, 77]));
    assert_eq!(out.data, vec![245, 235, 225, 77]);
}

#[test]
fn grayscale_keeps_gray_and_mixes_colour() {
    let out = Grayscale.apply(&rgba1([90, 90, 90, 13]));
    assert_eq!(out.data, vec![90, 90, 90, 13]);
    // (2126*200 + 7152*100 + 722*50) / 10000 = 117.
    let mixed = Grayscale.apply(&rgba1([200, 100, 50, 255]));
    assert_eq!(mixed.data, vec![117, 117, 117, 255]);
}

#[test]
fn sepia_matches_the_fixed_matrix() {
    // r = (393*100 + 769*150 + 189*200)/1000 = 192 (truncated)
    // g = (349*100 + 686*150 + 168*200)/1000 = 171
    // b = (272*100 + 534*150 + 131*200)/1000 = 133
    let out = Sepia.apply(&rgba1([100, 150, 200, 9]));
    assert_eq!(out.data, vec![192, 171, 133, 9]);
    // A bright pixel saturates red and green; blue's weights sum below one.
    let sat = Sepia.apply(&rgba1([255, 255, 255, 255]));
    assert_eq!(sat.data, vec![255, 255, 238, 255]);
}

#[test]
fn brighten_and_darken_saturate() {
    let b = Brighten.apply(&rgba1([0, 200, 240, 5]));
    assert_eq!(b.data, vec![30, 230, 255, 5]);
    let d = Darken.apply(&rgba1([0, 29, 200, 5]));
    assert_eq!(d.data, vec![0, 0, 170, 5]);
}

#[test]
fn contrast_stretches_around_mid_gray() {
    let lo = Contrast.apply(&rgba1([0, 128, 255, 44]));
    // 0 clamps to 0; 128 maps to ((2*128-255)*25+4080)/32 = 128; 255 clamps to 255.
    assert_eq!(lo.data, vec![0, 128, 255, 44]);
    let mid = Contrast.apply(&rgba1([100, 150, 200, 1]));
    // ((2v-255)*25+4080)/32 for 100, 150, 200 = 84, 162, 240.
    assert_eq!(mid.data, vec![84, 162, 240, 1]);
}

#[test]
fn pixelate_makes_blocks_constant() {
    let mut data = Vec::new();
    for i in 0..400u32 {
        data.extend_from_slice(&[(i % 256) as u8, ((i * 3) % 256) as u8, 7, 255]);
    }
    let img = Raster::new(20, 20, data).unwrap();
    let out = Pixelate.apply(&img);
    assert_eq!(out.width, 20);
    assert_eq!(out.height, 20);
    // With a 20-wide image the coarse grid has two cells; the whole left
    // half reads the same source pixel.
    let first = out.get_pixel(0, 0);
    for y in 0..10usize {
        for x in 0..10usize {
            assert_eq!(out.get_pixel(x, y), first);
        }
    }
    // And that pixel is the centre of the left half of the source.
    assert_eq!(first, img.get_pixel(5, 5));
}

#[test]
fn blur_of_uniform_image_is_unchanged() {
    let img = Raster::new(4, 4, vec![120; 64]).unwrap();
    let out = Blur.apply(&img);
    assert_eq!(out.data, img.data);
}

#[test]
fn blur_of_single_pixel_is_identity() {
    let img = rgba1([13, 240, 77, 255]);
    let out = Blur.apply(&img);
    assert_eq!(out.data, img.data);
}

#[test]
fn blur_spreads_an_impulse() {
    let mut data = vec![0u8; 11 * 4];
    data[5 * 4] = 255;
    data[5 * 4 + 3] = 255;
    let img = Raster::new(11, 1, data).unwrap();
    let out = Blur.apply(&img);
    // The impulse leaks into its neighbours: the next pixel is no longer 0.
    assert!(out.get_pixel(4, 0).r > 0);
    assert!(out.get_pixel(6, 0).r > 0);
    assert!(out.get_pixel(5, 0).r < 255);
}

#[test]
fn sharpen_of_single_pixel_is_identity() {
    let img = rgba1([13, 240, 77, 200]);
    let out = Sharpen.apply(&img);
    assert_eq!(out.data, img.data);
}

#[test]
fn sharpen_boosts_an_edge() {
    // A bright pixel between dark neighbours gets pushed to the limit.
    let img = Raster::new(
        3,
        1,
        vec![0, 0, 0, 255, 200, 200, 200, 255, 0, 0, 0, 255],
    )
    .unwrap();
    let out = Sharpen.apply(&img);
    assert_eq!(out.get_pixel(1, 0).r, 255);
    assert_eq!(out.get_pixel(0, 0).r, 0);
}
