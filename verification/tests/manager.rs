use cruncher::manager::JobManager;
use cruncher::types::{ImageJobRequest, JobStatus, StoreError};

fn request(inputs: Vec<&str>) -> ImageJobRequest {
    ImageJobRequest {
        inputs: inputs.into_iter().map(|s| s.to_string()).collect(),
        output_dir: None,
        mode: None,
        crop_region: None,
        options: None,
        pipeline: None,
        max_concurrency: None,
    }
}

#[test]
fn fresh_job_is_pending_at_zero_progress() {
    let mut mgr = JobManager::default();
    let id = mgr.create_job(request(vec!["a.png", "b.png"])).unwrap();
    let jobs = mgr.list_jobs().unwrap();
    assert_eq!(jobs.len(), 1);
    assert_eq!(jobs[0].job_id, id);
    assert_eq!(jobs[0].status, JobStatus::Pending);
    assert_eq!(jobs[0].overall_progress, 0);
    assert_eq!(jobs[0].total_files, 2);
    assert_eq!(jobs[0].completed_files, 0);
    assert_eq!(jobs[0].failed_files, 0);
    assert_eq!(jobs[0].cancelled_files, 0);
    for f in &jobs[0].files {
        assert_eq!(f.status, JobStatus::Pending);
        assert_eq!(f.progress, 0);
        assert!(f.output_path.is_none());
        assert!(f.error.is_none());
    }
}

#[test]
fn ids_increase_in_creation_order() {
    let mut mgr = JobManager::default();
    let a = mgr.create_job(request(vec!["a.png"])).unwrap();
    let b = mgr.create_job(request(vec!["b.png"])).unwrap();
    let c = mgr.create_job(request(vec!["c.png"])).unwrap();
    assert!(a < b && b < c);
    let listed: Vec<u64> = mgr.list_jobs().unwrap().iter().map(|j| j.job_id).collect();
    assert_eq!(listed, vec![a, b, c]);
}

#[test]
fn unknown_id_is_not_found() {
    let mut mgr = JobManager::default();
    assert_eq!(mgr.get_job(42).unwrap_err(), StoreError::NotFound);
    assert_eq!(mgr.mark_running(42).unwrap_err(), StoreError::NotFound);
    assert_eq!(mgr.finish_job(42, JobStatus::Completed).unwrap_err(), StoreError::NotFound);
    assert_eq!(mgr.cancel_job(42).unwrap_err(), StoreError::NotFound);
    assert_eq!(mgr.cancel_flag(42).unwrap_err(), StoreError::NotFound);
    assert_eq!(
        mgr.update_file(42, 0, None, None, None, None).unwrap_err(),
        StoreError::NotFound
    );
}

#[test]
fn update_file_merges_and_recomputes() {
    let mut mgr = JobManager::default();
    let id = mgr.create_job(request(vec!["a.png", "b.png"])).unwrap();
    mgr.update_file(id, 0, Some(JobStatus::Completed), Some(10000), Some("out.png".to_string()), None)
        .unwrap();
    let job = mgr.get_job(id).unwrap();
    assert_eq!(job.completed_files, 1);
    assert_eq!(job.failed_files, 0);
    assert_eq!(job.files[0].status, JobStatus::Completed);
    assert_eq!(job.files[0].progress, 10000);
    assert_eq!(job.files[0].output_path.as_deref(), Some("out.png"));
    // average of 10000 and 0
    assert_eq!(job.overall_progress, 5000);
}

#[test]
fn update_file_clamps_progress() {
    let mut mgr = JobManager::default();
    let id = mgr.create_job(request(vec!["a.png"])).unwrap();
    mgr.update_file(id, 0, None, Some(20000), None, None).unwrap();
    let job = mgr.get_job(id).unwrap();
    assert_eq!(job.files[0].progress, 10000);
}

#[test]
fn update_file_out_of_range_index_changes_no_file() {
    let mut mgr = JobManager::default();
    let id = mgr.create_job(request(vec!["a.png"])).unwrap();
    mgr.update_file(id, 5, Some(JobStatus::Failed), Some(100), None, None).unwrap();
    let job = mgr.get_job(id).unwrap();
    assert_eq!(job.files.len(), 1);
    assert_eq!(job.files[0].status, JobStatus::Pending);
    assert_eq!(job.failed_files, 0);
}

#[test]
fn counts_never_exceed_total() {
    let mut mgr = JobManager::default();
    let id = mgr.create_job(request(vec!["a.png", "b.png", "c.png"])).unwrap();
    mgr.update_file(id, 0, Some(JobStatus::Completed), Some(10000), None, None).unwrap();
    mgr.update_file(id, 1, Some(JobStatus::Failed), Some(0), None, Some("boom".to_string()))
        .unwrap();
    mgr.update_file(id, 2, Some(JobStatus::Cancelled), Some(0), None, None).unwrap();
    let job = mgr.get_job(id).unwrap();
    assert_eq!(job.completed_files + job.failed_files + job.cancelled_files, job.total_files);
    mgr.update_file(id, 2, Some(JobStatus::Pending), None, None, None).unwrap();
    let job = mgr.get_job(id).unwrap();
    assert!(job.completed_files + job.failed_files + job.cancelled_files <= job.total_files);
}

#[test]
fn finish_completed_forces_full_progress() {
    let mut mgr = JobManager::default();
    let id = mgr.create_job(request(vec!["a.png"])).unwrap();
    mgr.finish_job(id, JobStatus::Completed).unwrap();
    let job = mgr.get_job(id).unwrap();
    assert_eq!(job.status, JobStatus::Completed);
    assert_eq!(job.overall_progress, 10000);
    assert!(job.completed_at_ms.is_some());
}

#[test]
fn finish_failed_keeps_progress() {
    let mut mgr = JobManager::default();
    let id = mgr.create_job(request(vec!["a.png", "b.png"])).unwrap();
    mgr.update_file(id, 0, Some(JobStatus::Completed), Some(10000), None, None).unwrap();
    mgr.finish_job(id, JobStatus::Failed).unwrap();
    let job = mgr.get_job(id).unwrap();
    assert_eq!(job.status, JobStatus::Failed);
    assert_eq!(job.overall_progress, 5000);
}

#[test]
fn cancel_sets_flag_and_flips_pending_job() {
    let mut mgr = JobManager::default();
    let id = mgr.create_job(request(vec!["a.png"])).unwrap();
    assert_eq!(mgr.cancel_flag(id).unwrap(), false);
    mgr.cancel_job(id).unwrap();
    assert_eq!(mgr.cancel_flag(id).unwrap(), true);
    assert_eq!(mgr.get_job(id).unwrap().status, JobStatus::Cancelled);
}

#[test]
fn cancel_leaves_terminal_status_alone() {
    let mut mgr = JobManager::default();
    let id = mgr.create_job(request(vec!["a.png"])).unwrap();
    mgr.finish_job(id, JobStatus::Completed).unwrap();
    mgr.cancel_job(id).unwrap();
    let job = mgr.get_job(id).unwrap();
    assert_eq!(job.status, JobStatus::Completed);
    assert_eq!(mgr.cancel_flag(id).unwrap(), true);
}

#[test]
fn mark_running_sets_status_and_start_time() {
    let mut mgr = JobManager::default();
    let id = mgr.create_job(request(vec!["a.png"])).unwrap();
    mgr.mark_running(id).unwrap();
    let job = mgr.get_job(id).unwrap();
    assert_eq!(job.status, JobStatus::Running);
    assert!(job.started_at_ms.is_some());
}

#[test]
fn get_request_returns_the_admitted_request() {
    let mut mgr = JobManager::default();
    let mut req = request(vec!["x.png", "y.png"]);
    req.output_dir = Some("/tmp/out".to_string());
    let id = mgr.create_job(req).unwrap();
    let got = mgr.get_request(id).unwrap();
    assert_eq!(got.inputs, vec!["x.png".to_string(), "y.png".to_string()]);
    assert_eq!(got.output_dir.as_deref(), Some("/tmp/out"));
}

#[test]
fn empty_job_recomputes_to_full_progress() {
    let mut mgr = JobManager::default();
    let id = mgr.create_job(request(vec![])).unwrap();
    assert_eq!(mgr.get_job(id).unwrap().overall_progress, 0);
    mgr.update_file(id, 0, None, None, None, None).unwrap();
    assert_eq!(mgr.get_job(id).unwrap().overall_progress, 10000);
}
