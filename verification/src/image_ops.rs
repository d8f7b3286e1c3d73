//! Image-side operations: the crop bounds check, crop and resize applied
//! through the image codec, target-dimension and output-format resolution,
//! the circular alpha mask, and the decisions of the single-shot compress
//! operation.  The pixel transformations themselves are the codec's; the
//! decisions around them are verified here.

use vstd::prelude::*;

use crate::text::{
    is_explicit_format, normalized_format, spec_is_explicit_format, spec_normalized_format,
    spec_trim, spec_lower, ascii_lower, trim_ascii,
};
use crate::paths::{extension_of, file_name_of, lemma_last_index_of, spec_extension, spec_file_name};
use crate::types::{CropError, CropOptions, CropRegion, ProcessOptions};

verus! {

/// The image type of the codec, opaque to the verifier.
#[verifier::external_type_specification]
#[verifier::external_body]
pub struct ExDynamicImage(image::DynamicImage);

/// Relies on GenericImageView::dimensions for DynamicImage: the width and
/// height of the image in pixels.
#[verifier::external_body]
fn image_dimensions(img: &image::DynamicImage) -> (u32, u32) {
    image::GenericImageView::dimensions(img)
}

/// Relies on image::DynamicImage::crop_imm: the cut-out of the image
/// delimited by the given rectangle, computed purely in memory.
#[verifier::external_body]
fn crop_image(img: &image::DynamicImage, x: u32, y: u32, width: u32, height: u32) -> (r:
    image::DynamicImage) {
    img.crop_imm(x, y, width, height)
}

/// Relies on image::DynamicImage::resize: the image scaled, preserving
/// aspect ratio, to the largest size that fits within the given bounds,
/// computed purely in memory.
#[verifier::external_body]
fn resize_image(img: &image::DynamicImage, width: u32, height: u32) -> (r: image::DynamicImage) {
    img.resize(width, height, image::imageops::FilterType::Lanczos3)
}

/// A decoded image together with its recorded dimensions.  The dimensions
/// are the model the verified logic decides on; the pixel data is the
/// codec's.
pub struct ImageHandle {
    pub img: image::DynamicImage,
    pub width: u32,
    pub height: u32,
}

impl ImageHandle {
    /// Wrap a decoded image, recording its dimensions.
    pub fn new(img: image::DynamicImage) -> (r: ImageHandle) {
        let (w, h) = image_dimensions(&img);
        ImageHandle { img, width: w, height: h }
    }
}

/// The bounds check of a crop region against image dimensions, including
/// overflow-safe addition.
pub open spec fn spec_validate_crop_bounds(w: u32, h: u32, c: CropRegion) -> Result<
    (),
    CropError,
> {
    if c.x + c.width > u32::MAX {
        Err(CropError::OverflowX)
    } else if c.y + c.height > u32::MAX {
        Err(CropError::OverflowY)
    } else if c.x + c.width > w || c.y + c.height > h {
        Err(CropError::OutOfBounds)
    } else {
        Ok(())
    }
}

/// Check a crop region against image dimensions.
pub fn validate_crop_bounds(w: u32, h: u32, crop_region: &CropRegion) -> (r: Result<
    (),
    CropError,
>)
    ensures
        r == spec_validate_crop_bounds(w, h, *crop_region),
{
    if crop_region.width > u32::MAX - crop_region.x {
        Err(CropError::OverflowX)
    } else if crop_region.height > u32::MAX - crop_region.y {
        Err(CropError::OverflowY)
    } else if crop_region.x + crop_region.width > w || crop_region.y + crop_region.height > h {
        Err(CropError::OutOfBounds)
    } else {
        Ok(())
    }
}

/// Crop an image to the given region.  Succeeds exactly when the region
/// passes the bounds check; the result then has the region's dimensions.
pub fn apply_crop(img: &ImageHandle, crop_region: &CropRegion) -> (r: Result<
    ImageHandle,
    CropError,
>)
    ensures
        match spec_validate_crop_bounds(img.width, img.height, *crop_region) {
            Ok(u) => r matches Ok(h2) && h2.width == crop_region.width && h2.height
                == crop_region.height,
            Err(e) => r == Err::<ImageHandle, CropError>(e),
        },
{
    match validate_crop_bounds(img.width, img.height, crop_region) {
        Ok(()) => {
            let cropped = crop_image(
                &img.img,
                crop_region.x,
                crop_region.y,
                crop_region.width,
                crop_region.height,
            );
            Ok(ImageHandle { img: cropped, width: crop_region.width, height: crop_region.height })
        },
        Err(e) => Err(e),
    }
}

/// The resize target width: the requested width when given and positive,
/// else the current width.
pub open spec fn spec_target_width(width: u32, options: Option<ProcessOptions>) -> u32 {
    match options {
        Some(o) => match o.width {
            Some(w) => if w > 0 {
                w
            } else {
                width
            },
            None => width,
        },
        None => width,
    }
}

/// The resize target height: the requested height when given and positive,
/// else the current height.
pub open spec fn spec_target_height(height: u32, options: Option<ProcessOptions>) -> u32 {
    match options {
        Some(o) => match o.height {
            Some(h) => if h > 0 {
                h
            } else {
                height
            },
            None => height,
        },
        None => height,
    }
}

/// Resolve the resize target from the options, falling back to the
/// current dimensions when absent or zero.
pub fn resolve_target_dimensions(width: u32, height: u32, options: &Option<ProcessOptions>) -> (r:
    (u32, u32))
    ensures
        r.0 == spec_target_width(width, *options),
        r.1 == spec_target_height(height, *options),
{
    let target_w = match options {
        Some(o) => match o.width {
            Some(w) => if w > 0 {
                w
            } else {
                width
            },
            None => width,
        },
        None => width,
    };
    let target_h = match options {
        Some(o) => match o.height {
            Some(h) => if h > 0 {
                h
            } else {
                height
            },
            None => height,
        },
        None => height,
    };
    (target_w, target_h)
}

/// Resize an image to the resolved target dimensions; a no-op when the
/// target equals the current size or is degenerate.
pub fn apply_resize(img: ImageHandle, options: &Option<ProcessOptions>) -> (r: ImageHandle)
    ensures
        (spec_target_width(img.width, *options) == img.width && spec_target_height(
            img.height,
            *options,
        ) == img.height) ==> (r.width == img.width && r.height == img.height),
{
    let (target_w, target_h) = resolve_target_dimensions(img.width, img.height, options);
    if (target_w != img.width || target_h != img.height) && target_w > 0 && target_h > 0 {
        let resized = resize_image(&img.img, target_w, target_h);
        ImageHandle::new(resized)
    } else {
        img
    }
}

/// Crop in place: replace the handle with the cut-out.  Succeeds exactly
/// when the region passes the bounds check against the handle's
/// dimensions; on failure the handle is untouched.
pub fn apply_crop_in_place(img: &mut ImageHandle, crop_region: &CropRegion) -> (r: Result<
    (),
    CropError,
>)
    ensures
        match spec_validate_crop_bounds(old(img).width, old(img).height, *crop_region) {
            Ok(u) => r matches Ok(v) && final(img).width == crop_region.width && final(img).height
                == crop_region.height,
            Err(e) => r == Err::<(), CropError>(e) && *final(img) == *old(img),
        },
{
    match validate_crop_bounds(img.width, img.height, crop_region) {
        Ok(()) => {
            let cropped = crop_image(
                &img.img,
                crop_region.x,
                crop_region.y,
                crop_region.width,
                crop_region.height,
            );
            *img = ImageHandle {
                img: cropped,
                width: crop_region.width,
                height: crop_region.height,
            };
            Ok(())
        },
        Err(e) => Err(e),
    }
}

/// Resize in place: replace the handle with the resized image.
pub fn apply_resize_in_place(img: &mut ImageHandle, options: &Option<ProcessOptions>)
    ensures
        (spec_target_width(old(img).width, *options) == old(img).width && spec_target_height(
            old(img).height,
            *options,
        ) == old(img).height) ==> (final(img).width == old(img).width && final(img).height == old(
            img,
        ).height),
{
    let (target_w, target_h) = resolve_target_dimensions(img.width, img.height, options);
    if (target_w != img.width || target_h != img.height) && target_w > 0 && target_h > 0 {
        let resized = resize_image(&img.img, target_w, target_h);
        let replaced = ImageHandle::new(resized);
        *img = replaced;
    }
}

/// The output format of one file: the normalized explicit format from the
/// options when it names one, else the ASCII-lowercased extension of the
/// input path (empty when the path has none).
pub open spec fn spec_resolve_output_format(path: Seq<char>, options: Option<ProcessOptions>) -> Seq<
    char,
> {
    let explicit = match options {
        Some(o) => match o.format {
            Some(f) => if spec_is_explicit_format(f@) {
                Some(spec_normalized_format(f@))
            } else {
                None
            },
            None => None,
        },
        None => None,
    };
    match explicit {
        Some(f) => f,
        None => spec_lower(
            match spec_extension(spec_file_name(path)) {
                Some(e) => e,
                None => Seq::<char>::empty(),
            },
        ),
    }
}

/// Resolve the output format of one file from its path and options.
pub fn resolve_output_format(path: &str, options: &Option<ProcessOptions>) -> (r: String)
    ensures
        r@ == spec_resolve_output_format(path@, *options),
{
    match options {
        Some(o) => match &o.format {
            Some(f) => {
                if is_explicit_format(f.as_str()) {
                    return normalized_format(f.as_str());
                }
            },
            None => {},
        },
        None => {},
    }
    let name = file_name_of(path);
    proof {
        lemma_last_index_of(path@, '/');
    }
    let ext = match extension_of(name) {
        Some(e) => e,
        None => "",
    };
    proof {
        reveal_strlit("");
        assert(""@ =~= Seq::<char>::empty());
    }
    ascii_lower(ext)
}

/// Whether the options ask for any explicit processing: a quality, an
/// explicit format (trimmed, non-empty, not "auto"), or a positive width
/// or height.
pub open spec fn spec_has_explicit_processing(options: Option<ProcessOptions>) -> bool {
    match options {
        Some(o) => {
            ||| o.quality is Some
            ||| match o.format {
                Some(f) => spec_trim(f@).len() > 0 && spec_trim(f@) != "auto"@,
                None => false,
            }
            ||| match o.width {
                Some(w) => w > 0,
                None => false,
            }
            ||| match o.height {
                Some(h) => h > 0,
                None => false,
            }
        },
        None => false,
    }
}

/// Whether the options ask for any explicit processing.
pub fn has_explicit_processing(options: &Option<ProcessOptions>) -> (r: bool)
    ensures
        r == spec_has_explicit_processing(*options),
{
    match options {
        Some(o) => {
            if o.quality.is_some() {
                return true;
            }
            match &o.format {
                Some(f) => {
                    let trimmed = trim_ascii(f.as_str());
                    if !trimmed.is_empty() {
                        let auto = "auto".to_owned();
                        if !trimmed.to_owned().eq(&auto) {
                            return true;
                        }
                    }
                },
                None => {},
            }
            let wpos = match o.width {
                Some(w) => w > 0,
                None => false,
            };
            let hpos = match o.height {
                Some(h) => h > 0,
                None => false,
            };
            wpos || hpos
        },
        None => false,
    }
}

/// After an otherwise no-op compression, the freshly written output is
/// discarded in favour of a plain copy of the input exactly when nothing
/// explicit was asked for, the paths differ, and the output did not get
/// smaller.
pub open spec fn spec_should_restore_original(
    crop_region: Option<CropRegion>,
    target_w: u32,
    target_h: u32,
    orig_w: u32,
    orig_h: u32,
    options: Option<ProcessOptions>,
    same_path: bool,
    input_size: u64,
    output_size: u64,
) -> bool {
    &&& crop_region is None
    &&& target_w == orig_w
    &&& target_h == orig_h
    &&& !spec_has_explicit_processing(options)
    &&& !same_path
    &&& output_size >= input_size
}

/// Decide whether a no-op compression should fall back to copying the
/// original, to avoid an output larger than the input.
pub fn should_restore_original(
    crop_region: &Option<CropRegion>,
    target_w: u32,
    target_h: u32,
    orig_w: u32,
    orig_h: u32,
    options: &Option<ProcessOptions>,
    same_path: bool,
    input_size: u64,
    output_size: u64,
) -> (r: bool)
    ensures
        r == spec_should_restore_original(
            *crop_region,
            target_w,
            target_h,
            orig_w,
            orig_h,
            *options,
            same_path,
            input_size,
            output_size,
        ),
{
    crop_region.is_none() && target_w == orig_w && target_h == orig_h && !has_explicit_processing(
        options,
    ) && !same_path && output_size >= input_size
}

/// Position of the alpha byte of the RGBA pixel at (x, y) in a row-major
/// buffer of width `w`.
pub open spec fn alpha_index(w: int, x: int, y: int) -> int {
    4 * (y * w + x) + 3
}

/// Whether the pixel at (x, y) lies outside the circle inscribed in a
/// `w` by `h` image: radius half the smaller dimension, centre at
/// (w / 2, h / 2).
pub open spec fn spec_outside_circle(w: u32, h: u32, x: int, y: int) -> bool {
    let r = (if w <= h {
        w as int
    } else {
        h as int
    }) / 2;
    let dx = x - w as int / 2;
    let dy = y - h as int / 2;
    dx * dx + dy * dy > r * r
}

/// Distinct pixels own distinct alpha bytes.
proof fn lemma_alpha_index_injective(w: int, a: int, b: int, x: int, y: int)
    requires
        0 <= a < w,
        0 <= x < w,
        0 <= b,
        0 <= y,
        alpha_index(w, a, b) == alpha_index(w, x, y),
    ensures
        a == x && b == y,
{
    assert((b - y) * w == x - a) by (nonlinear_arith)
        requires
            4 * (b * w + a) + 3 == 4 * (y * w + x) + 3,
    ;
    assert(b == y && a == x) by (nonlinear_arith)
        requires
            (b - y) * w == x - a,
            0 <= a < w,
            0 <= x < w,
    ;
}

/// The alpha byte of every pixel lies within the buffer.
proof fn lemma_alpha_index_bound(w: int, h: int, x: int, y: int)
    requires
        0 <= x < w,
        0 <= y < h,
    ensures
        0 <= alpha_index(w, x, y) < 4 * w * h,
        alpha_index(w, x, y) % 4 == 3,
{
    assert(0 <= y * w + x && y * w + x < w * h) by (nonlinear_arith)
        requires
            0 <= x < w,
            0 <= y < h,
    ;
    assert(4 * (y * w + x) + 3 < 4 * (w * h)) by (nonlinear_arith)
        requires
            y * w + x < w * h,
    ;
    assert(4 * (w * h) == 4 * w * h) by (nonlinear_arith);
    assert((4 * (y * w + x) + 3) % 4 == 3) by (nonlinear_arith)
        requires
            0 <= y * w + x,
    ;
}

/// The masking progress over the buffer: every pixel in a column before
/// `x`, or in column `x` before row `y`, has its alpha byte zeroed when
/// it lies outside the circle; every other byte is untouched.
pub open spec fn masked_upto(pre: Seq<u8>, cur: Seq<u8>, w: u32, h: u32, x: int, y: int) -> bool {
    &&& cur.len() == pre.len()
    &&& forall|i: int| 0 <= i < pre.len() && i % 4 != 3 ==> cur[i] == pre[i]
    &&& forall|a: int, b: int|
        0 <= a < w && 0 <= b < h && (a < x || (a == x && b < y))
            ==> cur[#[trigger] alpha_index(w as int, a, b)] == (if spec_outside_circle(w, h, a, b) {
            0u8
        } else {
            pre[alpha_index(w as int, a, b)]
        })
    &&& forall|a: int, b: int|
        0 <= a < w && 0 <= b < h && !(a < x || (a == x && b < y))
            ==> cur[#[trigger] alpha_index(w as int, a, b)] == pre[alpha_index(w as int, a, b)]
}

/// Apply the circular mask of a circular crop: zero the alpha byte of
/// every RGBA pixel outside the inscribed circle; every other byte is
/// untouched.
pub fn apply_circular_mask(pixels: &mut Vec<u8>, w: u32, h: u32)
    requires
        w < 0x10000,
        h < 0x10000,
        old(pixels)@.len() == 4 * (w as int) * (h as int),
    ensures
        final(pixels)@.len() == old(pixels)@.len(),
        masked_upto(old(pixels)@, final(pixels)@, w, h, w as int, 0),
{
    let ghost pre = pixels@;
    let mut x: u32 = 0;
    while x < w
        invariant
            w < 0x10000,
            h < 0x10000,
            pre.len() == 4 * (w as int) * (h as int),
            x <= w,
            masked_upto(pre, pixels@, w, h, x as int, 0),
        decreases w - x,
    {
        let mut y: u32 = 0;
        while y < h
            invariant
                w < 0x10000,
                h < 0x10000,
                pre.len() == 4 * (w as int) * (h as int),
                x < w,
                y <= h,
                masked_upto(pre, pixels@, w, h, x as int, y as int),
            decreases h - y,
        {
            let radius: i64 = (if w <= h {
                w
            } else {
                h
            } as i64) / 2;
            let dx: i64 = x as i64 - (w / 2) as i64;
            let dy: i64 = y as i64 - (h / 2) as i64;
            proof {
                assert(dx * dx <= 0x10000 * 0x10000) by (nonlinear_arith)
                    requires
                        -0x10000 <= dx <= 0x10000,
                ;
                assert(dy * dy <= 0x10000 * 0x10000) by (nonlinear_arith)
                    requires
                        -0x10000 <= dy <= 0x10000,
                ;
                assert(radius * radius <= 0x10000 * 0x10000) by (nonlinear_arith)
                    requires
                        0 <= radius <= 0x10000,
                ;
                assert(dx * dx >= 0) by (nonlinear_arith);
                assert(dy * dy >= 0) by (nonlinear_arith);
                lemma_alpha_index_bound(w as int, h as int, x as int, y as int);
            }
            if dx * dx + dy * dy > radius * radius {
                let n = pixels.len();
                proof {
                    assert((y as int) * (w as int) + (x as int) < (w as int) * (h as int))
                        by (nonlinear_arith)
                        requires
                            0 <= x < w,
                            0 <= y < h,
                    ;
                    assert(4 * ((y as int) * (w as int) + (x as int)) + 3 < 4 * ((w as int) * (
                    h as int))) by (nonlinear_arith)
                        requires
                            (y as int) * (w as int) + (x as int) < (w as int) * (h as int),
                            0 <= (y as int) * (w as int) + (x as int),
                    ;
                    assert(4 * ((w as int) * (h as int)) == 4 * (w as int) * (h as int))
                        by (nonlinear_arith);
                    assert(0 <= (y as int) * (w as int)) by (nonlinear_arith)
                        requires
                            0 <= y,
                            0 <= w,
                    ;
                }
                let idx: usize = 4 * ((y as usize) * (w as usize) + (x as usize)) + 3;
                pixels[idx] = 0;
                proof {
                    assert forall|a: int, b: int|
                        0 <= a < w && 0 <= b < h && alpha_index(w as int, a, b) == idx as int
                            implies a == x as int && b == y as int by {
                        lemma_alpha_index_injective(w as int, a, b, x as int, y as int);
                    }
                }
            }
            proof {
                assert forall|a: int, b: int|
                    0 <= a < w && 0 <= b < h && (a < x as int || (a == x as int && b < y + 1))
                        implies pixels@[#[trigger] alpha_index(w as int, a, b)] == (
                    if spec_outside_circle(w, h, a, b) {
                        0u8
                    } else {
                        pre[alpha_index(w as int, a, b)]
                    }) by {
                    lemma_alpha_index_bound(w as int, h as int, a, b);
                    if a == x as int && b == y as int {
                    } else {
                        lemma_alpha_index_bound(w as int, h as int, x as int, y as int);
                        if alpha_index(w as int, a, b) == alpha_index(w as int, x as int, y as int) {
                            lemma_alpha_index_injective(w as int, a, b, x as int, y as int);
                        }
                    }
                }
                assert forall|a: int, b: int|
                    0 <= a < w && 0 <= b < h && !(a < x as int || (a == x as int && b < y + 1))
                        implies pixels@[#[trigger] alpha_index(w as int, a, b)] == pre[alpha_index(
                    w as int,
                    a,
                    b,
                )] by {
                    lemma_alpha_index_bound(w as int, h as int, a, b);
                    lemma_alpha_index_bound(w as int, h as int, x as int, y as int);
                    if alpha_index(w as int, a, b) == alpha_index(w as int, x as int, y as int) {
                        lemma_alpha_index_injective(w as int, a, b, x as int, y as int);
                    }
                }
            }
            y = y + 1;
        }
        proof {
            assert forall|a: int, b: int|
                0 <= a < w && 0 <= b < h && (a < x + 1 || (a == x + 1 && b < 0))
                    implies pixels@[#[trigger] alpha_index(w as int, a, b)] == (
                if spec_outside_circle(w, h, a, b) {
                    0u8
                } else {
                    pre[alpha_index(w as int, a, b)]
                }) by {
                assert(a < x as int || (a == x as int && b < h as int));
            }
        }
        x = x + 1;
    }
}

/// The save format of a standalone crop: "jpg"/"jpeg" and "webp" are
/// honoured, everything else (or no choice) saves as PNG.
#[derive(Debug, Clone, Copy, PartialEq, Eq, Structural)]
pub enum CropSaveFormat {
    Png,
    Jpeg,
    WebP,
}

/// The save format a standalone crop resolves to.
pub open spec fn spec_crop_save_format(options: CropOptions) -> CropSaveFormat {
    match options.output_format {
        Some(f) => if f@ == "jpg"@ || f@ == "jpeg"@ {
            CropSaveFormat::Jpeg
        } else if f@ == "webp"@ {
            CropSaveFormat::WebP
        } else {
            CropSaveFormat::Png
        },
        None => CropSaveFormat::Png,
    }
}

/// Resolve the save format of a standalone crop.
pub fn crop_save_format(options: &CropOptions) -> (r: CropSaveFormat)
    ensures
        r == spec_crop_save_format(*options),
{
    match &options.output_format {
        Some(f) => {
            if f.eq(&"jpg".to_owned()) || f.eq(&"jpeg".to_owned()) {
                CropSaveFormat::Jpeg
            } else if f.eq(&"webp".to_owned()) {
                CropSaveFormat::WebP
            } else {
                CropSaveFormat::Png
            }
        },
        None => CropSaveFormat::Png,
    }
}

} // verus!
