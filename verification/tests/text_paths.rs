use cruncher::paths::{build_output_path, extension_of, file_name_of, join_path, stem_of};
use cruncher::text::{ascii_lower, is_explicit_format, normalized_format, trim_ascii};
use cruncher::types::{CropError, PipelineError};

#[test]
fn ascii_lowercasing_folds_only_letters() {
    assert_eq!(ascii_lower("WebP-2024_X"), "webp-2024_x");
    assert_eq!(ascii_lower(""), "");
}

#[test]
fn trimming_removes_ascii_whitespace() {
    assert_eq!(trim_ascii("  png\t\r\n"), "png");
    assert_eq!(trim_ascii("   "), "");
    assert_eq!(trim_ascii("a b"), "a b");
}

#[test]
fn format_normalization_and_the_auto_marker() {
    assert_eq!(normalized_format(" JPEG "), "jpeg");
    assert!(is_explicit_format("webp"));
    assert!(is_explicit_format(" PNG "));
    assert!(!is_explicit_format("auto"));
    assert!(!is_explicit_format("  AUTO  "));
    assert!(!is_explicit_format("   "));
}

#[test]
fn path_parts_follow_the_last_separator_and_dot() {
    assert_eq!(file_name_of("a/b/photo.png"), "photo.png");
    assert_eq!(file_name_of("photo.png"), "photo.png");
    assert_eq!(stem_of("photo.png"), "photo");
    assert_eq!(stem_of("archive.tar.gz"), "archive.tar");
    assert_eq!(stem_of(".hidden"), ".hidden");
    assert_eq!(stem_of("noext"), "noext");
    assert_eq!(extension_of("photo.png"), Some("png"));
    assert_eq!(extension_of("archive.tar.gz"), Some("gz"));
    assert_eq!(extension_of(".hidden"), None);
    assert_eq!(extension_of("noext"), None);
}

#[test]
fn joining_inserts_a_single_separator() {
    assert_eq!(join_path("out", "a.png"), "out/a.png");
    assert_eq!(join_path("out/", "a.png"), "out/a.png");
    assert_eq!(join_path("", "a.png"), "a.png");
}

#[test]
fn output_path_uses_stem_suffix_and_extension() {
    assert_eq!(build_output_path("pics/photo.png", None), "pics/photo_compressed.png");
    assert_eq!(build_output_path("photo.png", None), "photo_compressed.png");
    assert_eq!(build_output_path("pics/photo.png", Some("out")), "out/photo_compressed.png");
    assert_eq!(build_output_path("/photo.png", None), "/photo_compressed.png");
    assert_eq!(build_output_path("pics/noext", None), "pics/noext_compressed.png");
}

#[test]
fn pipeline_errors_carry_their_messages() {
    assert_eq!(PipelineError::Cancelled.message(), "Job cancelled");
    assert!(PipelineError::Cancelled.is_cancelled());
    let codec = PipelineError::Codec("bad stream".to_string());
    assert_eq!(codec.message(), "bad stream");
    assert!(!codec.is_cancelled());
    let crop = PipelineError::Crop(CropError::OutOfBounds);
    assert_eq!(crop.message(), "Crop region out of bounds");
    assert!(!crop.is_cancelled());
}
