use cruncher::executor::StepYield;
use cruncher::image_ops::ImageHandle;
use cruncher::manager::JobManager;
use cruncher::orchestrator::{BeginOutcome, FileDecision, JobRun};
use cruncher::stage::PipelineStageKind;
use cruncher::types::{ImageJobRequest, JobStatus, PipelineError};

fn request(inputs: Vec<&str>) -> ImageJobRequest {
    ImageJobRequest {
        inputs: inputs.into_iter().map(|s| s.to_string()).collect(),
        output_dir: None,
        mode: None,
        crop_region: None,
        options: None,
        pipeline: None,
        max_concurrency: None,
    }
}

fn test_image() -> ImageHandle {
    ImageHandle::new(image::DynamicImage::new_rgb8(4, 4))
}

fn begin_run(mgr: &mut JobManager, id: u64) -> JobRun {
    match JobRun::begin(mgr, id).unwrap() {
        BeginOutcome::Started(run) => run,
        BeginOutcome::Empty => panic!("job unexpectedly empty"),
    }
}

/// Run one file through its stages, reporting the save milestones as a
/// codec would and polling the job's cancellation flag at each boundary.
fn run_one_file(run: &JobRun, mgr: &mut JobManager) -> Result<(), PipelineError> {
    let output = run.current_output_path();
    let mut fp = run.start_file(mgr, output);
    let mut img = test_image();
    while !fp.is_done() {
        let cancelled = mgr.cancel_flag(fp.job_id).unwrap();
        match fp.step(mgr, &mut img, cancelled)? {
            StepYield::Advanced(_evs) => {},
            StepYield::NeedsSave(_evs) => {
                fp.save_started(mgr);
                fp.save_milestone(mgr, 5000);
                fp.save_finished(mgr);
            },
        }
    }
    Ok(())
}

#[test]
fn empty_job_finishes_completed_at_once() {
    let mut mgr = JobManager::default();
    let id = mgr.create_job(request(vec![])).unwrap();
    match JobRun::begin(&mut mgr, id).unwrap() {
        BeginOutcome::Empty => {},
        BeginOutcome::Started(_) => panic!("expected an empty outcome"),
    }
    let job = mgr.get_job(id).unwrap();
    assert_eq!(job.status, JobStatus::Completed);
    assert_eq!(job.overall_progress, 10000);
}

#[test]
fn successful_batch_completes_every_file() {
    let mut mgr = JobManager::default();
    let id = mgr.create_job(request(vec!["a.png", "b.png"])).unwrap();
    let mut run = begin_run(&mut mgr, id);
    loop {
        match run.next_file(&mgr).unwrap() {
            FileDecision::Finished => break,
            FileDecision::RecordCancelled => {
                run.record_cancelled(&mut mgr);
            },
            FileDecision::Process => {
                let output = run.current_output_path();
                let outcome = run_one_file(&run, &mut mgr);
                let (_ev, stop) = run.record_result(&mut mgr, outcome, output);
                assert!(!stop);
            },
        }
    }
    let ev = run.finalize(&mut mgr).unwrap();
    assert_eq!(ev.status, JobStatus::Completed);
    assert_eq!(ev.overall_progress, 10000);
    let job = mgr.get_job(id).unwrap();
    assert_eq!(job.status, JobStatus::Completed);
    assert_eq!(job.completed_files, 2);
    assert_eq!(job.files[0].status, JobStatus::Completed);
    assert_eq!(job.files[0].progress, 10000);
    assert_eq!(job.files[0].output_path.as_deref(), Some("a_compressed.png"));
    assert_eq!(job.files[1].output_path.as_deref(), Some("b_compressed.png"));
}

#[test]
fn cancel_before_start_cancels_every_file() {
    let mut mgr = JobManager::default();
    let id = mgr.create_job(request(vec!["a.png", "b.png", "c.png"])).unwrap();
    mgr.cancel_job(id).unwrap();
    let mut run = begin_run(&mut mgr, id);
    let mut recorded: usize = 0;
    loop {
        match run.next_file(&mgr).unwrap() {
            FileDecision::Finished => break,
            FileDecision::RecordCancelled => {
                let ev = run.record_cancelled(&mut mgr);
                assert_eq!(ev.status, JobStatus::Cancelled);
                assert_eq!(ev.error.as_deref(), Some("Job cancelled"));
                recorded += 1;
            },
            FileDecision::Process => panic!("flagged job must not process files"),
        }
    }
    assert_eq!(recorded, 3);
    let ev = run.finalize(&mut mgr).unwrap();
    assert_eq!(ev.status, JobStatus::Cancelled);
    let job = mgr.get_job(id).unwrap();
    assert_eq!(job.status, JobStatus::Cancelled);
    assert_eq!(job.cancelled_files, 3);
    for f in &job.files {
        assert_eq!(f.status, JobStatus::Cancelled);
    }
}

#[test]
fn cancellation_during_second_file_stops_the_batch() {
    let mut mgr = JobManager::default();
    let id = mgr.create_job(request(vec!["a.png", "b.png", "c.png"])).unwrap();
    let mut run = begin_run(&mut mgr, id);

    // file 0 runs to completion
    assert_eq!(run.next_file(&mgr).unwrap(), FileDecision::Process);
    let out0 = run.current_output_path();
    let outcome0 = run_one_file(&run, &mut mgr);
    let (_ev, stop) = run.record_result(&mut mgr, outcome0, out0);
    assert!(!stop);

    // cancellation arrives while file 1 is in flight
    assert_eq!(run.next_file(&mgr).unwrap(), FileDecision::Process);
    let out1 = run.current_output_path();
    mgr.cancel_job(id).unwrap();
    let outcome1 = run_one_file(&run, &mut mgr);
    assert_eq!(outcome1, Err(PipelineError::Cancelled));
    let (_ev, stop) = run.record_result(&mut mgr, outcome1, out1);
    assert!(stop);

    // the remaining file is never attempted
    assert_eq!(run.next_file(&mgr).unwrap(), FileDecision::Finished);

    let ev = run.finalize(&mut mgr).unwrap();
    assert_eq!(ev.status, JobStatus::Cancelled);
    let job = mgr.get_job(id).unwrap();
    assert_eq!(job.status, JobStatus::Cancelled);
    assert_eq!(job.files[0].status, JobStatus::Completed);
    assert_eq!(job.files[1].status, JobStatus::Cancelled);
    assert_eq!(job.files[2].status, JobStatus::Pending);
}

#[test]
fn codec_failure_is_tolerated_and_batch_fails() {
    let mut mgr = JobManager::default();
    let id = mgr.create_job(request(vec!["a.png", "b.png"])).unwrap();
    let mut run = begin_run(&mut mgr, id);

    assert_eq!(run.next_file(&mgr).unwrap(), FileDecision::Process);
    let out0 = run.current_output_path();
    let (ev, stop) = run.record_result(
        &mut mgr,
        Err(PipelineError::Codec("encoder exploded".to_string())),
        out0,
    );
    assert!(!stop);
    assert_eq!(ev.status, JobStatus::Failed);
    assert_eq!(ev.error.as_deref(), Some("encoder exploded"));

    assert_eq!(run.next_file(&mgr).unwrap(), FileDecision::Process);
    let out1 = run.current_output_path();
    let outcome1 = run_one_file(&run, &mut mgr);
    let (_ev, stop) = run.record_result(&mut mgr, outcome1, out1);
    assert!(!stop);

    assert_eq!(run.next_file(&mgr).unwrap(), FileDecision::Finished);
    let ev = run.finalize(&mut mgr).unwrap();
    assert_eq!(ev.status, JobStatus::Failed);
    let job = mgr.get_job(id).unwrap();
    assert_eq!(job.status, JobStatus::Failed);
    assert_eq!(job.failed_files, 1);
    assert_eq!(job.completed_files, 1);
    assert_eq!(job.files[0].error.as_deref(), Some("encoder exploded"));
}

#[test]
fn out_of_bounds_crop_fails_the_file() {
    let mut mgr = JobManager::default();
    let mut req = request(vec!["a.png"]);
    req.crop_region = Some(cruncher::types::CropRegion { x: 0, y: 0, width: 10, height: 10 });
    req.pipeline = Some(vec![
        PipelineStageKind::Crop,
        PipelineStageKind::Compress,
        PipelineStageKind::Save,
    ]);
    let id = mgr.create_job(req).unwrap();
    let mut run = begin_run(&mut mgr, id);
    assert_eq!(run.next_file(&mgr).unwrap(), FileDecision::Process);
    let out = run.current_output_path();
    // the test image is 4x4, far smaller than the requested region
    let outcome = run_one_file(&run, &mut mgr);
    assert_eq!(
        outcome,
        Err(PipelineError::Crop(cruncher::types::CropError::OutOfBounds))
    );
    let (ev, stop) = run.record_result(&mut mgr, outcome, out);
    assert!(!stop);
    assert_eq!(ev.status, JobStatus::Failed);
    assert_eq!(ev.error.as_deref(), Some("Crop region out of bounds"));
    assert_eq!(run.next_file(&mgr).unwrap(), FileDecision::Finished);
    let ev = run.finalize(&mut mgr).unwrap();
    assert_eq!(ev.status, JobStatus::Failed);
    assert!(mgr.get_job(id).unwrap().status.is_terminal());
}

#[test]
fn step_reports_stage_progress_into_the_store() {
    let mut mgr = JobManager::default();
    let id = mgr.create_job(request(vec!["a.png"])).unwrap();
    let run = begin_run(&mut mgr, id);
    let output = run.current_output_path();
    let mut fp = run.start_file(&mut mgr, output);
    assert_eq!(fp.stages, vec![PipelineStageKind::Compress, PipelineStageKind::Save]);
    let mut img = test_image();

    // Compress: weight 35 of 50 completes
    match fp.step(&mut mgr, &mut img, false).unwrap() {
        StepYield::Advanced(evs) => {
            assert_eq!(evs.len(), 2);
            assert_eq!(evs[0].stage_progress, 0);
            assert_eq!(evs[1].stage_progress, 10000);
            // 35/50 of the file
            assert_eq!(evs[1].overall_progress, 7000);
        },
        StepYield::NeedsSave(_) => panic!("compress must not yield a save"),
    }
    let job = mgr.get_job(id).unwrap();
    assert_eq!(job.files[0].progress, 7000);
    assert_eq!(job.files[0].status, JobStatus::Running);

    // Save: the 15% directory step, one milestone, completion
    match fp.step(&mut mgr, &mut img, false).unwrap() {
        StepYield::NeedsSave(evs) => {
            assert_eq!(evs.len(), 1);
            assert_eq!(evs[0].stage_progress, 0);
        },
        StepYield::Advanced(_) => panic!("save must be yielded"),
    }
    let ev = fp.save_started(&mut mgr);
    assert_eq!(ev.stage_progress, 1500);
    let ev = fp.save_milestone(&mut mgr, 5000);
    // 1500 + 85 * 5000 / 100
    assert_eq!(ev.stage_progress, 5750);
    let ev = fp.save_finished(&mut mgr);
    assert_eq!(ev.stage_progress, 10000);
    assert_eq!(ev.overall_progress, 10000);
    assert!(fp.is_done());
}

#[test]
fn step_aborts_on_cancellation() {
    let mut mgr = JobManager::default();
    let id = mgr.create_job(request(vec!["a.png"])).unwrap();
    let run = begin_run(&mut mgr, id);
    let output = run.current_output_path();
    let mut fp = run.start_file(&mut mgr, output);
    let mut img = test_image();
    match fp.step(&mut mgr, &mut img, true) {
        Err(e) => assert_eq!(e, PipelineError::Cancelled),
        Ok(_) => panic!("a set flag must abort the step"),
    }
}
