//! The job orchestrator: a stepper that drives one created job across
//! its files, in strict input order.  Each file is either recorded as
//! Cancelled (when the flag is already set), or run through the stage
//! executor and recorded by its outcome; a cancellation outcome stops the
//! remaining batch, any other failure is tolerated.  Finalization settles
//! the terminal status and produces the one final progress event.

use vstd::prelude::*;

use crate::executor::FilePipeline;
use crate::manager::{spec_update_file_effect, JobManager};
use crate::paths::{build_output_path, spec_build_output_path};
use crate::progress::{
    calculate_file_base_progress, calculate_file_done_progress, spec_file_base_progress,
    spec_file_done_progress,
};
use crate::stage::{clone_stage_list, PipelineStageKind};
use crate::types::{
    spec_error_message, CompressMode, CropRegion, ImageJobProgressEvent, ImageJobState, JobStatus,
    PipelineError, ProcessOptions, StoreError,
};

verus! {

/// The terminal status a finished batch resolves to: Cancelled when the
/// flag is set or any file ended Cancelled, else Failed when any file
/// ended Failed, else Completed.
pub open spec fn spec_final_status(cancel_flag: bool, s: ImageJobState) -> JobStatus {
    if cancel_flag || s.cancelled_files > 0 {
        JobStatus::Cancelled
    } else if s.failed_files > 0 {
        JobStatus::Failed
    } else {
        JobStatus::Completed
    }
}

/// Resolve the terminal status of a finished batch from the cancellation
/// flag and the job's snapshot.
pub fn resolve_final_job_status(cancel_flag: bool, snapshot: &ImageJobState) -> (r: JobStatus)
    ensures
        r == spec_final_status(cancel_flag, *snapshot),
{
    if cancel_flag || snapshot.cancelled_files > 0 {
        JobStatus::Cancelled
    } else if snapshot.failed_files > 0 {
        JobStatus::Failed
    } else {
        JobStatus::Completed
    }
}

/// What the orchestrator decides for the next file.
#[derive(Debug, Clone, Copy, PartialEq, Eq, Structural)]
pub enum FileDecision {
    /// Every file is handled (or the batch stopped early): finalize.
    Finished,
    /// The cancellation flag is set: record this file as Cancelled
    /// without running it.
    RecordCancelled,
    /// Run this file through the stage executor.
    Process,
}

/// The run of one job across its files.
pub struct JobRun {
    pub job_id: u64,
    pub total_files: usize,
    /// Index of the next file to handle.
    pub file_index: usize,
    pub inputs: Vec<String>,
    pub output_dir: Option<String>,
    pub mode: CompressMode,
    pub crop_region: Option<CropRegion>,
    pub options: Option<ProcessOptions>,
    pub stages: Vec<PipelineStageKind>,
    /// Whether a cancellation outcome stopped the remaining batch.
    pub stopped: bool,
}

/// How a job run begins.
pub enum BeginOutcome {
    /// The job has files; drive the returned run.
    Started(JobRun),
    /// The job has no files: it was finished as Completed at once.
    Empty,
}

impl JobRun {
    /// Well-formedness: the cursor stays within the file count, which
    /// matches the input list, within machine limits.
    pub open spec fn wf(&self) -> bool {
        &&& self.file_index <= self.total_files
        &&& self.total_files == self.inputs@.len()
        &&& self.total_files < 0x8000_0000
        &&& self.stages@.len() <= 100
    }

    /// Begin a job run: read the admitted request, resolve its stages
    /// (falling back to Compress then Save), finish an empty job as
    /// Completed at once, and otherwise mark the job Running.
    pub fn begin(manager: &mut JobManager, job_id: u64) -> (r: Result<BeginOutcome, StoreError>)
        requires
            old(manager).wf(),
            forall|j: int|
                0 <= j < old(manager).jobs@.len() && (#[trigger] old(manager).jobs@[j].state.job_id) == job_id ==> (match old(manager).jobs@[j].request.pipeline {
                    Some(p) => p@.len() <= 100,
                    None => true,
                }),
        ensures
            final(manager).wf(),
            (r is Ok) == old(manager).spec_has_job(job_id),
            r matches Err(e) ==> e == StoreError::NotFound && *final(manager) == *old(manager),
            r matches Ok(o) ==> final(manager).next_id == old(manager).next_id && final(manager).jobs@.len() == old(manager).jobs@.len(),
            r matches Ok(o) ==> forall|j: int|
                0 <= j < old(manager).jobs@.len() && (#[trigger] old(manager).jobs@[j].state.job_id) != job_id ==> final(manager).jobs@[j] == old(manager).jobs@[j],
            r matches Ok(o) ==> (o matches BeginOutcome::Empty <==> (exists|j: int|
                0 <= j < old(manager).jobs@.len() && (#[trigger] old(manager).jobs@[j].state.job_id) == job_id && old(manager).jobs@[j].request.inputs@.len()
                    == 0)),
            r matches Ok(o) ==> (o matches BeginOutcome::Empty ==> forall|j: int|
                0 <= j < old(manager).jobs@.len() && (#[trigger] old(manager).jobs@[j].state.job_id) == job_id ==> {
                    let oj = old(manager).jobs@[j];
                    let nj = final(manager).jobs@[j];
                    &&& nj.state.status == JobStatus::Completed
                    &&& nj.state.completed_at_ms is Some
                    &&& nj.state.overall_progress == 10000
                    &&& nj.request == oj.request
                    &&& nj.cancel_flag == oj.cancel_flag
                    &&& nj.state.files@ == oj.state.files@
                    &&& nj.state.job_id == oj.state.job_id
                }),
            r matches Ok(o) ==> (o matches BeginOutcome::Started(run) ==> {
                &&& run.wf()
                &&& run.job_id == job_id
                &&& run.file_index == 0
                &&& run.stopped == false
                &&& run.total_files > 0
                &&& forall|j: int|
                    0 <= j < old(manager).jobs@.len() && (#[trigger] old(manager).jobs@[j].state.job_id) == job_id ==> {
                        let oj = old(manager).jobs@[j];
                        let nj = final(manager).jobs@[j];
                        &&& run.inputs@.len() == oj.request.inputs@.len()
                        &&& forall|k: int|
                            0 <= k < run.inputs@.len() ==> (#[trigger] run.inputs@[k])@
                                == oj.request.inputs@[k]@
                        &&& run.output_dir == oj.request.output_dir
                        &&& run.crop_region == oj.request.crop_region
                        &&& run.options == oj.request.options
                        &&& run.mode == (match oj.request.mode {
                            Some(m) => m,
                            None => CompressMode::VisuallyLossless,
                        })
                        &&& run.stages@ == (match oj.request.pipeline {
                            Some(p) => p@,
                            None => seq![
                                PipelineStageKind::Compress,
                                PipelineStageKind::Save,
                            ],
                        })
                        &&& nj.state.status == JobStatus::Running
                        &&& nj.state.started_at_ms is Some
                        &&& nj.request == oj.request
                        &&& nj.cancel_flag == oj.cancel_flag
                        &&& nj.state.files@ == oj.state.files@
                        &&& nj.state.job_id == oj.state.job_id
                        &&& nj.state.total_files == oj.state.total_files
                        &&& nj.state.completed_files == oj.state.completed_files
                        &&& nj.state.failed_files == oj.state.failed_files
                        &&& nj.state.cancelled_files == oj.state.cancelled_files
                        &&& nj.state.overall_progress == oj.state.overall_progress
                    }
            }),
    {
        let request = match manager.get_request(job_id) {
            Ok(q) => q,
            Err(e) => {
                return Err(e);
            },
        };
        proof {
            lemma_job_id_unique(*old(manager), job_id);
        }
        let stages = match &request.pipeline {
            Some(p) => clone_stage_list(p),
            None => {
                let mut v: Vec<PipelineStageKind> = Vec::new();
                v.push(PipelineStageKind::Compress);
                v.push(PipelineStageKind::Save);
                proof {
                    assert(v@ =~= seq![PipelineStageKind::Compress, PipelineStageKind::Save]);
                }
                v
            },
        };
        let total_files = request.inputs.len();
        if total_files == 0 {
            let _ = manager.finish_job(job_id, JobStatus::Completed);
            return Ok(BeginOutcome::Empty);
        }
        let mode = match request.mode {
            Some(m) => m,
            None => CompressMode::VisuallyLossless,
        };
        let _ = manager.mark_running(job_id);
        Ok(
            BeginOutcome::Started(
                JobRun {
                    job_id,
                    total_files,
                    file_index: 0,
                    inputs: request.inputs,
                    output_dir: request.output_dir,
                    mode,
                    crop_region: request.crop_region,
                    options: request.options,
                    stages,
                    stopped: false,
                },
            ),
        )
    }
}

impl JobRun {
    /// Decide the next file: finished when the cursor is past the end or
    /// the batch stopped early; otherwise record-as-cancelled when the
    /// job's cancellation flag is set, else process.
    pub fn next_file(&self, manager: &JobManager) -> (r: Result<FileDecision, StoreError>)
        requires
            self.wf(),
            manager.wf(),
        ensures
            r matches Err(e) ==> e == StoreError::NotFound && !manager.spec_has_job(self.job_id)
                && !(self.stopped || self.file_index >= self.total_files),
            r matches Ok(d) ==> {
                &&& ((self.stopped || self.file_index >= self.total_files) <==> d
                    == FileDecision::Finished)
                &&& (d != FileDecision::Finished ==> forall|j: int|
                    0 <= j < manager.jobs@.len() && (#[trigger] manager.jobs@[j].state.job_id)
                        == self.job_id ==> d == (if manager.jobs@[j].cancel_flag {
                        FileDecision::RecordCancelled
                    } else {
                        FileDecision::Process
                    }))
            },
    {
        if self.stopped || self.file_index >= self.total_files {
            return Ok(FileDecision::Finished);
        }
        proof {
            lemma_job_id_unique(*manager, self.job_id);
        }
        match manager.cancel_flag(self.job_id) {
            Ok(flag) => {
                if flag {
                    Ok(FileDecision::RecordCancelled)
                } else {
                    Ok(FileDecision::Process)
                }
            },
            Err(e) => Err(e),
        }
    }

    /// The input path of the file at the cursor.
    pub fn current_input(&self) -> (r: &String)
        requires
            self.wf(),
            self.file_index < self.total_files,
        ensures
            *r == self.inputs@[self.file_index as int],
    {
        &self.inputs[self.file_index]
    }

    /// The deterministic output path of the file at the cursor: its stem
    /// plus the fixed suffix and the original extension, in the output
    /// directory or beside the input.
    pub fn current_output_path(&self) -> (r: String)
        requires
            self.wf(),
            self.file_index < self.total_files,
        ensures
            r@ == spec_build_output_path(
                self.inputs@[self.file_index as int]@,
                match self.output_dir {
                    Some(d) => Some(d@),
                    None => None,
                },
            ),
    {
        let dir = match &self.output_dir {
            Some(d) => Some(d.as_str()),
            None => None,
        };
        build_output_path(self.inputs[self.file_index].as_str(), dir)
    }

    /// Mark the file at the cursor Running at 0% and set up its stage
    /// executor.
    pub fn start_file(&self, manager: &mut JobManager, output_path: String) -> (r: FilePipeline)
        requires
            self.wf(),
            old(manager).wf(),
            self.file_index < self.total_files,
        ensures
            final(manager).wf(),
            spec_update_file_effect(
                *old(manager),
                *final(manager),
                self.job_id,
                self.file_index as int,
                Some(JobStatus::Running),
                Some(0u32),
                None,
                None,
            ),
            r.wf(),
            r.job_id == self.job_id,
            r.file_index == self.file_index,
            r.total_files == self.total_files,
            r.input_path@ == self.inputs@[self.file_index as int]@,
            r.output_path@ == output_path@,
            r.mode == self.mode,
            r.crop_region == self.crop_region,
            r.options == self.options,
            r.stages@ == self.stages@,
            r.idx == 0,
            r.completed_weight == 0,
            r.in_save == false,
    {
        let _ = manager.update_file(
            self.job_id,
            self.file_index,
            Some(JobStatus::Running),
            Some(0),
            None,
            None,
        );
        let input = self.inputs[self.file_index].clone();
        let options = match &self.options {
            Some(o) => Some(o.duplicate()),
            None => None,
        };
        let stages = clone_stage_list(&self.stages);
        FilePipeline::new(
            self.job_id,
            self.file_index,
            self.total_files,
            input,
            output_path,
            self.mode,
            self.crop_region,
            options,
            stages,
        )
    }

    /// Record the file at the cursor as Cancelled without running it, at
    /// 0% stage progress and the pre-file baseline overall progress, and
    /// move on to the next file.
    pub fn record_cancelled(&mut self, manager: &mut JobManager) -> (ev: ImageJobProgressEvent)
        requires
            old(self).wf(),
            old(manager).wf(),
            old(self).file_index < old(self).total_files,
        ensures
            final(self).wf(),
            final(manager).wf(),
            final(self).file_index == old(self).file_index + 1,
            final(self).stopped == old(self).stopped,
            final(self).job_id == old(self).job_id,
            final(self).total_files == old(self).total_files,
            final(self).inputs@ == old(self).inputs@,
            final(self).output_dir == old(self).output_dir,
            final(self).mode == old(self).mode,
            final(self).crop_region == old(self).crop_region,
            final(self).options == old(self).options,
            final(self).stages@ == old(self).stages@,
            exists|err: String|
                (#[trigger] err@) == "Job cancelled"@ && spec_update_file_effect(
                    *old(manager),
                    *final(manager),
                    old(self).job_id,
                    old(self).file_index as int,
                    Some(JobStatus::Cancelled),
                    Some(0u32),
                    None,
                    Some(err),
                ),
            ev.job_id == old(self).job_id,
            ev.file_index == old(self).file_index,
            ev.total_files == old(self).total_files,
            ev.input_path matches Some(p) && p@ == old(self).inputs@[old(
                self,
            ).file_index as int]@,
            ev.output_path is None,
            ev.stage is None,
            ev.stage_progress == 0,
            ev.overall_progress == spec_file_base_progress(
                old(self).file_index as int,
                old(self).total_files as int,
            ),
            ev.status == JobStatus::Cancelled,
            ev.message matches Some(m) && m@ == "Job cancelled"@,
            ev.error matches Some(e) && e@ == "Job cancelled"@,
    {
        let overall = calculate_file_base_progress(self.file_index, self.total_files);
        let err_store = "Job cancelled".to_owned();
        let _ = manager.update_file(
            self.job_id,
            self.file_index,
            Some(JobStatus::Cancelled),
            Some(0),
            None,
            Some(err_store),
        );
        let input = self.inputs[self.file_index].clone();
        let ev = ImageJobProgressEvent {
            job_id: self.job_id,
            file_index: self.file_index,
            total_files: self.total_files,
            input_path: Some(input),
            output_path: None,
            stage: None,
            stage_progress: 0,
            overall_progress: overall,
            status: JobStatus::Cancelled,
            message: Some("Job cancelled".to_owned()),
            error: Some("Job cancelled".to_owned()),
        };
        self.file_index = self.file_index + 1;
        ev
    }

    /// Record the outcome of one processed file and move on: a success
    /// marks it Completed at 100% with its output path; a failure is
    /// classified by the distinguished cancellation outcome, recorded at
    /// 0%, and a cancellation stops the remaining batch.
    pub fn record_result(
        &mut self,
        manager: &mut JobManager,
        outcome: Result<(), PipelineError>,
        output_path: String,
    ) -> (r: (ImageJobProgressEvent, bool))
        requires
            old(self).wf(),
            old(manager).wf(),
            old(self).file_index < old(self).total_files,
        ensures
            final(self).wf(),
            final(manager).wf(),
            final(self).file_index == old(self).file_index + 1,
            final(self).job_id == old(self).job_id,
            final(self).total_files == old(self).total_files,
            final(self).inputs@ == old(self).inputs@,
            final(self).output_dir == old(self).output_dir,
            final(self).mode == old(self).mode,
            final(self).crop_region == old(self).crop_region,
            final(self).options == old(self).options,
            final(self).stages@ == old(self).stages@,
            r.0.job_id == old(self).job_id,
            r.0.file_index == old(self).file_index,
            r.0.total_files == old(self).total_files,
            r.0.input_path matches Some(p) && p@ == old(self).inputs@[old(
                self,
            ).file_index as int]@,
            outcome matches Ok(u) ==> {
                &&& r.1 == false
                &&& final(self).stopped == old(self).stopped
                &&& spec_update_file_effect(
                    *old(manager),
                    *final(manager),
                    old(self).job_id,
                    old(self).file_index as int,
                    Some(JobStatus::Completed),
                    Some(10000u32),
                    Some(output_path),
                    None,
                )
                &&& r.0.output_path matches Some(p) && p == output_path
                &&& r.0.stage == Some(PipelineStageKind::Save)
                &&& r.0.stage_progress == 10000
                &&& r.0.overall_progress == spec_file_done_progress(
                    old(self).file_index as int,
                    old(self).total_files as int,
                )
                &&& r.0.status == JobStatus::Completed
                &&& r.0.message matches Some(m) && m@ == "File completed"@
                &&& r.0.error is None
            },
            outcome matches Err(e) ==> ({
                let cancelled = e == PipelineError::Cancelled;
                let status = if cancelled {
                    JobStatus::Cancelled
                } else {
                    JobStatus::Failed
                };
                &&& r.1 == cancelled
                &&& final(self).stopped == (old(self).stopped || cancelled)
                &&& exists|err: String|
                    (#[trigger] err@) == spec_error_message(e) && spec_update_file_effect(
                        *old(manager),
                        *final(manager),
                        old(self).job_id,
                        old(self).file_index as int,
                        Some(status),
                        Some(0u32),
                        None,
                        Some(err),
                    )
                &&& r.0.output_path is None
                &&& r.0.stage is None
                &&& r.0.stage_progress == 0
                &&& r.0.overall_progress == spec_file_base_progress(
                    old(self).file_index as int,
                    old(self).total_files as int,
                )
                &&& r.0.status == status
                &&& r.0.message is None
                &&& r.0.error matches Some(m) && m@ == spec_error_message(e)
            }),
    {
        let input = self.inputs[self.file_index].clone();
        match outcome {
            Ok(()) => {
                let overall = calculate_file_done_progress(self.file_index, self.total_files);
                let out_for_event = output_path.clone();
                let _ = manager.update_file(
                    self.job_id,
                    self.file_index,
                    Some(JobStatus::Completed),
                    Some(10000),
                    Some(output_path),
                    None,
                );
                let ev = ImageJobProgressEvent {
                    job_id: self.job_id,
                    file_index: self.file_index,
                    total_files: self.total_files,
                    input_path: Some(input),
                    output_path: Some(out_for_event),
                    stage: Some(PipelineStageKind::Save),
                    stage_progress: 10000,
                    overall_progress: overall,
                    status: JobStatus::Completed,
                    message: Some("File completed".to_owned()),
                    error: None,
                };
                self.file_index = self.file_index + 1;
                (ev, false)
            },
            Err(e) => {
                let cancelled = e.is_cancelled();
                let status = if cancelled {
                    JobStatus::Cancelled
                } else {
                    JobStatus::Failed
                };
                let overall = calculate_file_base_progress(self.file_index, self.total_files);
                let msg_store = e.message();
                let msg_event = e.message();
                let _ = manager.update_file(
                    self.job_id,
                    self.file_index,
                    Some(status),
                    Some(0),
                    None,
                    Some(msg_store),
                );
                let ev = ImageJobProgressEvent {
                    job_id: self.job_id,
                    file_index: self.file_index,
                    total_files: self.total_files,
                    input_path: Some(input),
                    output_path: None,
                    stage: None,
                    stage_progress: 0,
                    overall_progress: overall,
                    status,
                    message: None,
                    error: Some(msg_event),
                };
                if cancelled {
                    self.stopped = true;
                }
                self.file_index = self.file_index + 1;
                (ev, cancelled)
            },
        }
    }

    /// Finalize the batch: resolve the terminal status from the
    /// cancellation flag and the file counts, settle it in the store, and
    /// build the one final progress event.
    pub fn finalize(&self, manager: &mut JobManager) -> (r: Result<
        ImageJobProgressEvent,
        StoreError,
    >)
        requires
            self.wf(),
            old(manager).wf(),
        ensures
            final(manager).wf(),
            (r is Ok) == old(manager).spec_has_job(self.job_id),
            r matches Err(e) ==> e == StoreError::NotFound && *final(manager) == *old(manager),
            r matches Ok(ev) ==> ({
                &&& final(manager).next_id == old(manager).next_id
                &&& final(manager).jobs@.len() == old(manager).jobs@.len()
                &&& forall|j: int|
                    0 <= j < old(manager).jobs@.len() && (#[trigger] old(manager).jobs@[j].state.job_id) != self.job_id ==> final(manager).jobs@[j] == old(manager).jobs@[j]
                &&& forall|j: int|
                    0 <= j < old(manager).jobs@.len() && (#[trigger] old(manager).jobs@[j].state.job_id) == self.job_id ==> {
                        let oj = old(manager).jobs@[j];
                        let nj = final(manager).jobs@[j];
                        let fs = spec_final_status(oj.cancel_flag, oj.state);
                        &&& nj.state.status == fs
                        &&& nj.state.completed_at_ms is Some
                        &&& nj.state.overall_progress == (if fs == JobStatus::Completed {
                            10000int
                        } else {
                            oj.state.overall_progress as int
                        })
                        &&& nj.request == oj.request
                        &&& nj.cancel_flag == oj.cancel_flag
                        &&& nj.state.files@ == oj.state.files@
                        &&& nj.state.job_id == oj.state.job_id
                        &&& nj.state.total_files == oj.state.total_files
                        &&& nj.state.completed_files == oj.state.completed_files
                        &&& nj.state.failed_files == oj.state.failed_files
                        &&& nj.state.cancelled_files == oj.state.cancelled_files
                        &&& ev.status == fs
                        &&& ev.overall_progress == nj.state.overall_progress
                    }
                &&& ev.job_id == self.job_id
                &&& ev.file_index == (if self.total_files == 0 {
                    0int
                } else {
                    self.total_files - 1
                })
                &&& ev.total_files == self.total_files
                &&& ev.input_path is None
                &&& ev.output_path is None
                &&& ev.stage is None
                &&& ev.stage_progress == 10000
                &&& ev.message matches Some(m) && m@ == "Job finished"@
                &&& ev.error is None
            }),
    {
        proof {
            lemma_job_id_unique(*old(manager), self.job_id);
        }
        let snapshot = match manager.get_job(self.job_id) {
            Ok(s) => s,
            Err(e) => {
                return Err(e);
            },
        };
        let flag = match manager.cancel_flag(self.job_id) {
            Ok(f) => f,
            Err(e) => {
                return Err(e);
            },
        };
        let final_status = resolve_final_job_status(flag, &snapshot);
        let _ = manager.finish_job(self.job_id, final_status);
        let final_overall = match manager.get_job(self.job_id) {
            Ok(s) => s.overall_progress,
            Err(e) => 10000,
        };
        let fi = if self.total_files == 0 {
            0
        } else {
            self.total_files - 1
        };
        Ok(
            ImageJobProgressEvent {
                job_id: self.job_id,
                file_index: fi,
                total_files: self.total_files,
                input_path: None,
                output_path: None,
                stage: None,
                stage_progress: 10000,
                overall_progress: final_overall,
                status: final_status,
                message: Some("Job finished".to_owned()),
                error: None,
            },
        )
    }
}

/// All positions holding one job id coincide: ids increase strictly.
proof fn lemma_job_id_unique(m: JobManager, job_id: u64)
    requires
        m.wf(),
    ensures
        forall|a: int, b: int|
            0 <= a < m.jobs@.len() && 0 <= b < m.jobs@.len() && (#[trigger] m.jobs@[a].state.job_id)
                == job_id && (#[trigger] m.jobs@[b].state.job_id) == job_id ==> a == b,
{
    assert forall|a: int, b: int|
        0 <= a < m.jobs@.len() && 0 <= b < m.jobs@.len() && (#[trigger] m.jobs@[a].state.job_id)
            == job_id && (#[trigger] m.jobs@[b].state.job_id) == job_id implies a == b by {
        if a < b {
            assert(m.jobs@[a].state.job_id < m.jobs@[b].state.job_id);
        } else if b < a {
            assert(m.jobs@[b].state.job_id < m.jobs@[a].state.job_id);
        }
    }
}

} // verus!
