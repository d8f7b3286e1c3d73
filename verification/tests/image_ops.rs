use cruncher::image_ops::{
    apply_circular_mask, apply_crop, apply_resize, crop_save_format, has_explicit_processing,
    resolve_output_format, resolve_target_dimensions, should_restore_original,
    validate_crop_bounds, CropSaveFormat, ImageHandle,
};
use cruncher::types::{CropError, CropOptions, CropRegion, ProcessOptions};

fn options(
    quality: Option<u8>,
    format: Option<&str>,
    width: Option<u32>,
    height: Option<u32>,
) -> ProcessOptions {
    ProcessOptions { quality, format: format.map(|s| s.to_string()), width, height }
}

#[test]
fn crop_bounds_accept_a_fitting_region() {
    let region = CropRegion { x: 2, y: 3, width: 4, height: 5 };
    assert_eq!(validate_crop_bounds(10, 10, &region), Ok(()));
}

#[test]
fn crop_bounds_reject_out_of_bounds() {
    let region = CropRegion { x: 8, y: 0, width: 4, height: 5 };
    assert_eq!(validate_crop_bounds(10, 10, &region), Err(CropError::OutOfBounds));
}

#[test]
fn crop_bounds_reject_overflowing_addition() {
    let region = CropRegion { x: u32::MAX, y: 0, width: 2, height: 2 };
    assert_eq!(validate_crop_bounds(10, 10, &region), Err(CropError::OverflowX));
    let region = CropRegion { x: 0, y: u32::MAX, width: 2, height: 2 };
    assert_eq!(validate_crop_bounds(10, 10, &region), Err(CropError::OverflowY));
}

#[test]
fn apply_crop_produces_the_region_dimensions() {
    let img = ImageHandle::new(image::DynamicImage::new_rgb8(10, 8));
    assert_eq!(img.width, 10);
    assert_eq!(img.height, 8);
    let region = CropRegion { x: 1, y: 1, width: 4, height: 3 };
    let cropped = apply_crop(&img, &region).unwrap();
    assert_eq!(cropped.width, 4);
    assert_eq!(cropped.height, 3);
}

#[test]
fn apply_crop_cuts_the_requested_pixels() {
    let mut rgba = image::RgbaImage::new(4, 4);
    for y in 0..4u32 {
        for x in 0..4u32 {
            rgba.put_pixel(x, y, image::Rgba([(x * 10 + y) as u8, 0, 0, 255]));
        }
    }
    let img = ImageHandle::new(image::DynamicImage::ImageRgba8(rgba));
    let region = CropRegion { x: 1, y: 2, width: 2, height: 2 };
    let cropped = apply_crop(&img, &region).unwrap();
    let out = cropped.img.to_rgba8();
    // pixel (0, 0) of the cut-out is pixel (1, 2) of the source
    assert_eq!(out.get_pixel(0, 0).0[0], 12);
    assert_eq!(out.get_pixel(1, 1).0[0], 23);
}

#[test]
fn apply_crop_rejects_a_region_past_the_edge() {
    let img = ImageHandle::new(image::DynamicImage::new_rgb8(4, 4));
    let region = CropRegion { x: 2, y: 2, width: 4, height: 4 };
    assert!(apply_crop(&img, &region).is_err());
}

#[test]
fn resize_targets_fall_back_to_current_dimensions() {
    let opts = Some(options(None, None, Some(0), None));
    assert_eq!(resolve_target_dimensions(640, 480, &opts), (640, 480));
    let opts = Some(options(None, None, Some(100), None));
    assert_eq!(resolve_target_dimensions(640, 480, &opts), (100, 480));
    assert_eq!(resolve_target_dimensions(640, 480, &None), (640, 480));
}

#[test]
fn resize_is_a_no_op_when_the_target_matches() {
    let img = ImageHandle::new(image::DynamicImage::new_rgb8(6, 6));
    let opts = Some(options(None, None, Some(6), Some(6)));
    let out = apply_resize(img, &opts);
    assert_eq!(out.width, 6);
    assert_eq!(out.height, 6);
}

#[test]
fn resize_shrinks_to_fit_the_bounds() {
    let img = ImageHandle::new(image::DynamicImage::new_rgb8(8, 4));
    let opts = Some(options(None, None, Some(4), Some(4)));
    let out = apply_resize(img, &opts);
    assert_eq!(out.width, 4);
    assert_eq!(out.height, 2);
}

#[test]
fn output_format_prefers_an_explicit_choice() {
    let opts = Some(options(None, Some(" WebP "), None, None));
    assert_eq!(resolve_output_format("photo.PNG", &opts), "webp");
}

#[test]
fn output_format_falls_back_to_the_extension() {
    assert_eq!(resolve_output_format("dir/photo.JPG", &None), "jpg");
    let opts = Some(options(None, Some(" auto "), None, None));
    assert_eq!(resolve_output_format("photo.png", &opts), "png");
    assert_eq!(resolve_output_format("noext", &None), "");
}

#[test]
fn explicit_processing_is_detected() {
    assert!(!has_explicit_processing(&None));
    assert!(!has_explicit_processing(&Some(options(None, Some("auto"), Some(0), None))));
    assert!(has_explicit_processing(&Some(options(Some(90), None, None, None))));
    assert!(has_explicit_processing(&Some(options(None, Some("png"), None, None))));
    assert!(has_explicit_processing(&Some(options(None, None, Some(10), None))));
}

#[test]
fn no_op_compression_restores_a_larger_output() {
    assert!(should_restore_original(&None, 4, 4, 4, 4, &None, false, 100, 150));
    assert!(!should_restore_original(&None, 4, 4, 4, 4, &None, false, 150, 100));
    assert!(!should_restore_original(&None, 4, 4, 4, 4, &None, true, 100, 150));
    let crop = Some(CropRegion { x: 0, y: 0, width: 2, height: 2 });
    assert!(!should_restore_original(&crop, 4, 4, 4, 4, &None, false, 100, 150));
    assert!(!should_restore_original(&None, 2, 4, 4, 4, &None, false, 100, 150));
}

#[test]
fn crop_save_format_honours_jpg_and_webp() {
    let mut opts = CropOptions {
        x: 0,
        y: 0,
        width: 1,
        height: 1,
        circular: None,
        output_format: None,
    };
    assert_eq!(crop_save_format(&opts), CropSaveFormat::Png);
    opts.output_format = Some("jpeg".to_string());
    assert_eq!(crop_save_format(&opts), CropSaveFormat::Jpeg);
    opts.output_format = Some("webp".to_string());
    assert_eq!(crop_save_format(&opts), CropSaveFormat::WebP);
    opts.output_format = Some("gif".to_string());
    assert_eq!(crop_save_format(&opts), CropSaveFormat::Png);
}

#[test]
fn circular_mask_zeroes_only_outside_alphas() {
    // 3x3 image: radius 1, centre (1, 1).  The four corners are at
    // distance sqrt(2) > 1 and lose their alpha; the cross keeps it.
    let w: u32 = 3;
    let h: u32 = 3;
    let mut pixels: Vec<u8> = (0..(4 * w * h) as usize).map(|i| (i % 251) as u8 + 1).collect();
    let before = pixels.clone();
    apply_circular_mask(&mut pixels, w, h);
    for y in 0..h {
        for x in 0..w {
            let idx = (4 * (y * w + x) + 3) as usize;
            let dx = x as i64 - 1;
            let dy = y as i64 - 1;
            let outside = dx * dx + dy * dy > 1;
            if outside {
                assert_eq!(pixels[idx], 0, "alpha at ({x},{y})");
            } else {
                assert_eq!(pixels[idx], before[idx], "alpha at ({x},{y})");
            }
            for c in 0..3 {
                let ci = (4 * (y * w + x) + c) as usize;
                assert_eq!(pixels[ci], before[ci], "channel {c} at ({x},{y})");
            }
        }
    }
}
