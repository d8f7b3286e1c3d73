use cruncher::stage::PipelineStageKind;
use cruncher::types::{CropRegion, ImageJobRequest, ProcessOptions, ValidationError};
use cruncher::validator::{
    resolve_pipeline, validate_job_request, validate_pipeline, RequestPathFacts,
};

fn request(inputs: Vec<&str>) -> ImageJobRequest {
    ImageJobRequest {
        inputs: inputs.into_iter().map(|s| s.to_string()).collect(),
        output_dir: None,
        mode: None,
        crop_region: None,
        options: None,
        pipeline: None,
        max_concurrency: None,
    }
}

fn facts_all_exist(n: usize) -> RequestPathFacts {
    RequestPathFacts { input_exists: vec![true; n], output_dir_exists: true, output_dir_is_dir: true }
}

#[test]
fn pipeline_missing_save_is_rejected() {
    let stages = vec![PipelineStageKind::Crop, PipelineStageKind::Compress];
    assert_eq!(validate_pipeline(&stages), Err(ValidationError::SaveCountNotOne));
}

#[test]
fn pipeline_with_save_twice_is_rejected() {
    let stages = vec![
        PipelineStageKind::Compress,
        PipelineStageKind::Save,
        PipelineStageKind::Save,
    ];
    assert_eq!(validate_pipeline(&stages), Err(ValidationError::SaveCountNotOne));
}

#[test]
fn pipeline_with_decreasing_order_is_rejected() {
    let stages = vec![
        PipelineStageKind::Resize,
        PipelineStageKind::Crop,
        PipelineStageKind::Save,
    ];
    assert_eq!(validate_pipeline(&stages), Err(ValidationError::StageOrderDecreasing));
}

#[test]
fn empty_pipeline_is_rejected() {
    let stages: Vec<PipelineStageKind> = Vec::new();
    assert_eq!(validate_pipeline(&stages), Err(ValidationError::EmptyPipeline));
}

#[test]
fn valid_pipeline_passes() {
    let stages = vec![
        PipelineStageKind::Crop,
        PipelineStageKind::Resize,
        PipelineStageKind::Compress,
        PipelineStageKind::Save,
    ];
    assert_eq!(validate_pipeline(&stages), Ok(()));
}

#[test]
fn resolver_crop_and_width_without_format() {
    let mut req = request(vec!["a.png"]);
    req.crop_region = Some(CropRegion { x: 0, y: 0, width: 10, height: 10 });
    req.options = Some(ProcessOptions {
        quality: None,
        format: None,
        width: Some(100),
        height: None,
    });
    let stages = resolve_pipeline(&req);
    assert_eq!(
        stages,
        vec![
            PipelineStageKind::Crop,
            PipelineStageKind::Resize,
            PipelineStageKind::Compress,
            PipelineStageKind::Save,
        ]
    );
}

#[test]
fn resolver_default_is_compress_save() {
    let req = request(vec!["a.png"]);
    let stages = resolve_pipeline(&req);
    assert_eq!(stages, vec![PipelineStageKind::Compress, PipelineStageKind::Save]);
}

#[test]
fn resolver_auto_format_adds_no_convert() {
    let mut req = request(vec!["a.png"]);
    req.options = Some(ProcessOptions {
        quality: None,
        format: Some("  AUTO ".to_string()),
        width: None,
        height: None,
    });
    let stages = resolve_pipeline(&req);
    assert_eq!(stages, vec![PipelineStageKind::Compress, PipelineStageKind::Save]);
}

#[test]
fn resolver_explicit_format_adds_convert() {
    let mut req = request(vec!["a.png"]);
    req.options = Some(ProcessOptions {
        quality: None,
        format: Some("webp".to_string()),
        width: None,
        height: None,
    });
    let stages = resolve_pipeline(&req);
    assert_eq!(
        stages,
        vec![
            PipelineStageKind::Convert,
            PipelineStageKind::Compress,
            PipelineStageKind::Save,
        ]
    );
}

#[test]
fn resolver_keeps_explicit_pipeline() {
    let mut req = request(vec!["a.png"]);
    req.pipeline = Some(vec![PipelineStageKind::Save]);
    assert_eq!(resolve_pipeline(&req), vec![PipelineStageKind::Save]);
}

#[test]
fn resolved_pipeline_always_validates() {
    let mut req = request(vec!["a.png"]);
    req.crop_region = Some(CropRegion { x: 1, y: 1, width: 5, height: 5 });
    req.options = Some(ProcessOptions {
        quality: Some(80),
        format: Some("jpg".to_string()),
        width: Some(10),
        height: Some(10),
    });
    assert_eq!(validate_pipeline(&resolve_pipeline(&req)), Ok(()));
}

#[test]
fn empty_inputs_are_rejected() {
    let req = request(vec![]);
    let facts = facts_all_exist(0);
    assert_eq!(validate_job_request(&req, &facts), Err(ValidationError::EmptyInputs));
}

#[test]
fn missing_input_is_rejected_with_its_index() {
    let req = request(vec!["a.png", "b.png", "c.png"]);
    let facts = RequestPathFacts {
        input_exists: vec![true, false, true],
        output_dir_exists: true,
        output_dir_is_dir: true,
    };
    assert_eq!(
        validate_job_request(&req, &facts),
        Err(ValidationError::InputNotFound { index: 1 })
    );
}

#[test]
fn missing_output_dir_is_rejected() {
    let mut req = request(vec!["a.png"]);
    req.output_dir = Some("/nope".to_string());
    let facts = RequestPathFacts {
        input_exists: vec![true],
        output_dir_exists: false,
        output_dir_is_dir: false,
    };
    assert_eq!(validate_job_request(&req, &facts), Err(ValidationError::OutputDirNotFound));
}

#[test]
fn output_path_that_is_no_directory_is_rejected() {
    let mut req = request(vec!["a.png"]);
    req.output_dir = Some("/a/file.txt".to_string());
    let facts = RequestPathFacts {
        input_exists: vec![true],
        output_dir_exists: true,
        output_dir_is_dir: false,
    };
    assert_eq!(
        validate_job_request(&req, &facts),
        Err(ValidationError::OutputDirNotDirectory)
    );
}

#[test]
fn quality_out_of_range_is_rejected() {
    let mut req = request(vec!["a.png"]);
    req.options = Some(ProcessOptions {
        quality: Some(0),
        format: None,
        width: None,
        height: None,
    });
    assert_eq!(
        validate_job_request(&req, &facts_all_exist(1)),
        Err(ValidationError::QualityOutOfRange)
    );
    req.options = Some(ProcessOptions {
        quality: Some(101),
        format: None,
        width: None,
        height: None,
    });
    assert_eq!(
        validate_job_request(&req, &facts_all_exist(1)),
        Err(ValidationError::QualityOutOfRange)
    );
}

#[test]
fn zero_width_and_height_are_rejected() {
    let mut req = request(vec!["a.png"]);
    req.options = Some(ProcessOptions {
        quality: None,
        format: None,
        width: Some(0),
        height: None,
    });
    assert_eq!(validate_job_request(&req, &facts_all_exist(1)), Err(ValidationError::ZeroWidth));
    req.options = Some(ProcessOptions {
        quality: None,
        format: None,
        width: None,
        height: Some(0),
    });
    assert_eq!(validate_job_request(&req, &facts_all_exist(1)), Err(ValidationError::ZeroHeight));
}

#[test]
fn zero_crop_size_is_rejected() {
    let mut req = request(vec!["a.png"]);
    req.crop_region = Some(CropRegion { x: 0, y: 0, width: 0, height: 5 });
    assert_eq!(
        validate_job_request(&req, &facts_all_exist(1)),
        Err(ValidationError::ZeroCropSize)
    );
}

#[test]
fn well_formed_request_passes() {
    let mut req = request(vec!["a.png", "b.jpg"]);
    req.options = Some(ProcessOptions {
        quality: Some(90),
        format: Some("webp".to_string()),
        width: Some(640),
        height: Some(480),
    });
    req.crop_region = Some(CropRegion { x: 0, y: 0, width: 5, height: 5 });
    assert_eq!(validate_job_request(&req, &facts_all_exist(2)), Ok(()));
}
