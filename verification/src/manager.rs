//! The job store: the one owner of all job and file state.  Jobs are kept
//! in creation order with strictly increasing ids; every mutation goes
//! through a store operation, and every operation keeps each job snapshot
//! well formed.

use vstd::prelude::*;

use vstd::arithmetic::div_mod::{lemma_div_is_ordered, lemma_div_multiples_vanish,
    lemma_multiply_divide_lt};

use crate::types::{
    count_with_status, files_progress_bounded, lemma_all_terminal_counts_exact,
    lemma_distinct_counts_le_len, lemma_sum_progress_bounds, spec_is_terminal, state_wf,
    sum_progress, ImageJobRequest, ImageJobState, JobFileState, JobStatus, StoreError,
};

verus! {

/// Relies on std::time::SystemTime::now and duration_since: the current
/// wall-clock time in milliseconds since the Unix epoch, or 0 when the
/// clock reads before the epoch.  Nothing is promised of the value.
#[verifier::external_body]
fn now_ms() -> u64 {
    match std::time::SystemTime::now().duration_since(std::time::UNIX_EPOCH) {
        Ok(duration) => duration.as_millis() as u64,
        Err(_) => 0,
    }
}

/// One job as the store keeps it: the admitted request, the mutable
/// snapshot, and the cooperative cancellation flag.
pub struct ManagedJob {
    pub request: ImageJobRequest,
    pub state: ImageJobState,
    pub cancel_flag: bool,
}

/// The store owning every job.
pub struct JobManager {
    pub next_id: u64,
    pub jobs: Vec<ManagedJob>,
}

/// The overall progress recomputed from the files: their average, or
/// 100% for a job without files.
pub open spec fn spec_overall_progress(files: Seq<JobFileState>, total_files: int) -> int {
    if total_files == 0 {
        10000
    } else {
        sum_progress(files) / total_files
    }
}

impl JobManager {
    /// Well-formedness: every job snapshot is well formed and sized
    /// within machine limits, its file list matches its request, and the
    /// ids increase strictly in creation order, all below `next_id`.
    pub open spec fn wf(&self) -> bool {
        &&& forall|i: int|
            0 <= i < self.jobs@.len() ==> state_wf(#[trigger] self.jobs@[i].state)
        &&& forall|i: int|
            0 <= i < self.jobs@.len() ==> #[trigger] self.jobs@[i].state.total_files
                == self.jobs@[i].request.inputs@.len()
        &&& forall|i: int|
            0 <= i < self.jobs@.len() ==> #[trigger] self.jobs@[i].state.total_files
                < 0x8000_0000
        &&& forall|i: int|
            0 <= i < self.jobs@.len() ==> #[trigger] self.jobs@[i].state.job_id < self.next_id
        &&& forall|i: int, j: int|
            0 <= i < j < self.jobs@.len() ==> #[trigger] self.jobs@[i].state.job_id
                < #[trigger] self.jobs@[j].state.job_id
    }

    /// Whether a job with the given id exists.
    pub open spec fn spec_has_job(&self, job_id: u64) -> bool {
        exists|i: int|
            0 <= i < self.jobs@.len() && (#[trigger] self.jobs@[i].state.job_id) == job_id
    }

    /// Find the position of the job with the given id.
    fn find_index(&self, job_id: u64) -> (r: Option<usize>)
        ensures
            match r {
                Some(i) => i < self.jobs@.len() && self.jobs@[i as int].state.job_id == job_id,
                None => !self.spec_has_job(job_id),
            },
    {
        let n = self.jobs.len();
        let mut i: usize = 0;
        while i < n
            invariant
                n == self.jobs@.len(),
                i <= n,
                forall|j: int| 0 <= j < i ==> (#[trigger] self.jobs@[j].state.job_id) != job_id,
            decreases n - i,
        {
            if self.jobs[i].state.job_id == job_id {
                return Some(i);
            }
            i = i + 1;
        }
        None
    }
}

impl Default for JobManager {
    /// An empty store; the first job gets id 1.
    fn default() -> (r: JobManager)
        ensures
            r.wf(),
            r.next_id == 1,
            r.jobs@.len() == 0,
    {
        JobManager { next_id: 1, jobs: Vec::new() }
    }
}

/// Every status of a fresh file list is Pending, so any other count is 0.
proof fn lemma_count_with_status_absent(files: Seq<JobFileState>, status: JobStatus)
    requires
        forall|i: int| 0 <= i < files.len() ==> (#[trigger] files[i].status) != status,
    ensures
        count_with_status(files, status) == 0,
    decreases files.len(),
{
    if files.len() > 0 {
        lemma_count_with_status_absent(files.drop_last(), status);
    }
}

impl JobManager {
    /// Admit a request: allocate the next id and register one Pending
    /// file per input, all at progress 0, the job Pending at overall 0.
    pub fn create_job(&mut self, request: ImageJobRequest) -> (r: Result<u64, StoreError>)
        requires
            old(self).wf(),
            old(self).next_id < u64::MAX,
            request.inputs@.len() < 0x8000_0000,
        ensures
            final(self).wf(),
            r == Ok::<u64, StoreError>(old(self).next_id),
            final(self).next_id == old(self).next_id + 1,
            final(self).jobs@.len() == old(self).jobs@.len() + 1,
            forall|j: int|
                0 <= j < old(self).jobs@.len() ==> final(self).jobs@[j] == old(self).jobs@[j],
            final(self).jobs@.last().request == request,
            final(self).jobs@.last().cancel_flag == false,
            ({
                let s = final(self).jobs@.last().state;
                &&& s.job_id == old(self).next_id
                &&& s.status == JobStatus::Pending
                &&& s.started_at_ms is None
                &&& s.completed_at_ms is None
                &&& s.total_files == request.inputs@.len()
                &&& s.completed_files == 0
                &&& s.failed_files == 0
                &&& s.cancelled_files == 0
                &&& s.overall_progress == 0
                &&& s.files@.len() == request.inputs@.len()
                &&& forall|k: int|
                    0 <= k < s.files@.len() ==> {
                        &&& (#[trigger] s.files@[k]).input_path@ == request.inputs@[k]@
                        &&& s.files@[k].output_path is None
                        &&& s.files@[k].status == JobStatus::Pending
                        &&& s.files@[k].progress == 0
                        &&& s.files@[k].error is None
                    }
            }),
    {
        let job_id = self.next_id;
        self.next_id = self.next_id + 1;
        let now = now_ms();
        let mut files: Vec<JobFileState> = Vec::new();
        let n = request.inputs.len();
        let mut k: usize = 0;
        while k < n
            invariant
                n == request.inputs@.len(),
                k <= n,
                files@.len() == k,
                forall|t: int|
                    0 <= t < k ==> {
                        &&& (#[trigger] files@[t]).input_path@ == request.inputs@[t]@
                        &&& files@[t].output_path is None
                        &&& files@[t].status == JobStatus::Pending
                        &&& files@[t].progress == 0
                        &&& files@[t].error is None
                    },
            decreases n - k,
        {
            files.push(
                JobFileState {
                    input_path: request.inputs[k].clone(),
                    output_path: None,
                    status: JobStatus::Pending,
                    progress: 0,
                    error: None,
                },
            );
            k = k + 1;
        }
        let state = ImageJobState {
            job_id,
            status: JobStatus::Pending,
            created_at_ms: now,
            started_at_ms: None,
            completed_at_ms: None,
            total_files: n,
            completed_files: 0,
            failed_files: 0,
            cancelled_files: 0,
            overall_progress: 0,
            files,
        };
        proof {
            lemma_count_with_status_absent(state.files@, JobStatus::Completed);
            lemma_count_with_status_absent(state.files@, JobStatus::Failed);
            lemma_count_with_status_absent(state.files@, JobStatus::Cancelled);
        }
        self.jobs.push(ManagedJob { request, state, cancel_flag: false });
        Ok(job_id)
    }

    /// A deep snapshot of one job's state.
    pub fn get_job(&self, job_id: u64) -> (r: Result<ImageJobState, StoreError>)
        ensures
            (r is Ok) == self.spec_has_job(job_id),
            r matches Err(e) ==> e == StoreError::NotFound,
            r matches Ok(s) ==> exists|i: int|
                0 <= i < self.jobs@.len() && (#[trigger] self.jobs@[i].state.job_id) == job_id
                    && state_matches(s, self.jobs@[i].state),
    {
        match self.find_index(job_id) {
            Some(i) => {
                let s = snapshot_state(&self.jobs[i].state);
                proof {
                    assert(self.jobs@[i as int].state.job_id == job_id);
                }
                Ok(s)
            },
            None => Err(StoreError::NotFound),
        }
    }

    /// A deep snapshot of one job's admitted request.
    pub fn get_request(&self, job_id: u64) -> (r: Result<ImageJobRequest, StoreError>)
        ensures
            (r is Ok) == self.spec_has_job(job_id),
            r matches Err(e) ==> e == StoreError::NotFound,
            r matches Ok(q) ==> exists|i: int|
                0 <= i < self.jobs@.len() && (#[trigger] self.jobs@[i].state.job_id) == job_id
                    && request_matches(q, self.jobs@[i].request),
    {
        match self.find_index(job_id) {
            Some(i) => {
                let q = snapshot_request(&self.jobs[i].request);
                proof {
                    assert(self.jobs@[i as int].state.job_id == job_id);
                }
                Ok(q)
            },
            None => Err(StoreError::NotFound),
        }
    }

    /// Snapshots of all jobs, in creation order.
    pub fn list_jobs(&self) -> (r: Result<Vec<ImageJobState>, StoreError>)
        ensures
            r matches Ok(v) && v@.len() == self.jobs@.len(),
            r matches Ok(v) ==> forall|i: int|
                0 <= i < v@.len() ==> state_matches(#[trigger] v@[i], self.jobs@[i].state),
    {
        let n = self.jobs.len();
        let mut out: Vec<ImageJobState> = Vec::new();
        let mut i: usize = 0;
        while i < n
            invariant
                n == self.jobs@.len(),
                i <= n,
                out@.len() == i,
                forall|j: int|
                    0 <= j < i ==> state_matches(#[trigger] out@[j], self.jobs@[j].state),
            decreases n - i,
        {
            out.push(snapshot_state(&self.jobs[i].state));
            i = i + 1;
        }
        Ok(out)
    }

    /// The job's cooperative cancellation flag.
    pub fn cancel_flag(&self, job_id: u64) -> (r: Result<bool, StoreError>)
        ensures
            (r is Ok) == self.spec_has_job(job_id),
            r matches Err(e) ==> e == StoreError::NotFound,
            r matches Ok(f) ==> exists|i: int|
                0 <= i < self.jobs@.len() && (#[trigger] self.jobs@[i].state.job_id) == job_id
                    && f == self.jobs@[i].cancel_flag,
    {
        match self.find_index(job_id) {
            Some(i) => Ok(self.jobs[i].cancel_flag),
            None => Err(StoreError::NotFound),
        }
    }

    /// Mark a job Running and stamp its start time.
    pub fn mark_running(&mut self, job_id: u64) -> (r: Result<(), StoreError>)
        requires
            old(self).wf(),
        ensures
            final(self).wf(),
            (r is Ok) == old(self).spec_has_job(job_id),
            r matches Err(e) ==> e == StoreError::NotFound && *final(self) == *old(self),
            final(self).next_id == old(self).next_id,
            final(self).jobs@.len() == old(self).jobs@.len(),
            forall|j: int|
                0 <= j < old(self).jobs@.len() && (#[trigger] old(self).jobs@[j].state.job_id)
                    != job_id ==> final(self).jobs@[j] == old(self).jobs@[j],
            forall|j: int|
                0 <= j < old(self).jobs@.len() && (#[trigger] old(self).jobs@[j].state.job_id)
                    == job_id ==> {
                    let oj = old(self).jobs@[j];
                    let nj = final(self).jobs@[j];
                    &&& nj.request == oj.request
                    &&& nj.cancel_flag == oj.cancel_flag
                    &&& nj.state.status == JobStatus::Running
                    &&& nj.state.started_at_ms is Some
                    &&& nj.state.job_id == oj.state.job_id
                    &&& nj.state.created_at_ms == oj.state.created_at_ms
                    &&& nj.state.completed_at_ms == oj.state.completed_at_ms
                    &&& nj.state.total_files == oj.state.total_files
                    &&& nj.state.completed_files == oj.state.completed_files
                    &&& nj.state.failed_files == oj.state.failed_files
                    &&& nj.state.cancelled_files == oj.state.cancelled_files
                    &&& nj.state.overall_progress == oj.state.overall_progress
                    &&& nj.state.files@ == oj.state.files@
                },
    {
        match self.find_index(job_id) {
            Some(i) => {
                self.jobs[i].state.status = JobStatus::Running;
                self.jobs[i].state.started_at_ms = Some(now_ms());
                Ok(())
            },
            None => Err(StoreError::NotFound),
        }
    }

    /// Set a terminal status and stamp the completion time; force overall
    /// progress to 100% only when the status is Completed.
    pub fn finish_job(&mut self, job_id: u64, status: JobStatus) -> (r: Result<(), StoreError>)
        requires
            old(self).wf(),
        ensures
            final(self).wf(),
            (r is Ok) == old(self).spec_has_job(job_id),
            r matches Err(e) ==> e == StoreError::NotFound && *final(self) == *old(self),
            final(self).next_id == old(self).next_id,
            final(self).jobs@.len() == old(self).jobs@.len(),
            forall|j: int|
                0 <= j < old(self).jobs@.len() && (#[trigger] old(self).jobs@[j].state.job_id)
                    != job_id ==> final(self).jobs@[j] == old(self).jobs@[j],
            forall|j: int|
                0 <= j < old(self).jobs@.len() && (#[trigger] old(self).jobs@[j].state.job_id)
                    == job_id ==> {
                    let oj = old(self).jobs@[j];
                    let nj = final(self).jobs@[j];
                    &&& nj.request == oj.request
                    &&& nj.cancel_flag == oj.cancel_flag
                    &&& nj.state.status == status
                    &&& nj.state.completed_at_ms is Some
                    &&& nj.state.overall_progress == if status == JobStatus::Completed {
                        10000int
                    } else {
                        oj.state.overall_progress as int
                    }
                    &&& nj.state.job_id == oj.state.job_id
                    &&& nj.state.created_at_ms == oj.state.created_at_ms
                    &&& nj.state.started_at_ms == oj.state.started_at_ms
                    &&& nj.state.total_files == oj.state.total_files
                    &&& nj.state.completed_files == oj.state.completed_files
                    &&& nj.state.failed_files == oj.state.failed_files
                    &&& nj.state.cancelled_files == oj.state.cancelled_files
                    &&& nj.state.files@ == oj.state.files@
                },
    {
        match self.find_index(job_id) {
            Some(i) => {
                self.jobs[i].state.status = status;
                self.jobs[i].state.completed_at_ms = Some(now_ms());
                if status == JobStatus::Completed {
                    self.jobs[i].state.overall_progress = 10000;
                }
                Ok(())
            },
            None => Err(StoreError::NotFound),
        }
    }

    /// Request cancellation: set the flag, and flip a Pending or Running
    /// job to Cancelled at once as an optimistic signal.
    pub fn cancel_job(&mut self, job_id: u64) -> (r: Result<(), StoreError>)
        requires
            old(self).wf(),
        ensures
            final(self).wf(),
            (r is Ok) == old(self).spec_has_job(job_id),
            r matches Err(e) ==> e == StoreError::NotFound && *final(self) == *old(self),
            final(self).next_id == old(self).next_id,
            final(self).jobs@.len() == old(self).jobs@.len(),
            forall|j: int|
                0 <= j < old(self).jobs@.len() && (#[trigger] old(self).jobs@[j].state.job_id)
                    != job_id ==> final(self).jobs@[j] == old(self).jobs@[j],
            forall|j: int|
                0 <= j < old(self).jobs@.len() && (#[trigger] old(self).jobs@[j].state.job_id)
                    == job_id ==> {
                    let oj = old(self).jobs@[j];
                    let nj = final(self).jobs@[j];
                    &&& nj.request == oj.request
                    &&& nj.cancel_flag == true
                    &&& nj.state.status == if oj.state.status == JobStatus::Pending
                        || oj.state.status == JobStatus::Running {
                        JobStatus::Cancelled
                    } else {
                        oj.state.status
                    }
                    &&& nj.state.job_id == oj.state.job_id
                    &&& nj.state.created_at_ms == oj.state.created_at_ms
                    &&& nj.state.started_at_ms == oj.state.started_at_ms
                    &&& nj.state.completed_at_ms == oj.state.completed_at_ms
                    &&& nj.state.total_files == oj.state.total_files
                    &&& nj.state.completed_files == oj.state.completed_files
                    &&& nj.state.failed_files == oj.state.failed_files
                    &&& nj.state.cancelled_files == oj.state.cancelled_files
                    &&& nj.state.overall_progress == oj.state.overall_progress
                    &&& nj.state.files@ == oj.state.files@
                },
    {
        match self.find_index(job_id) {
            Some(i) => {
                self.jobs[i].cancel_flag = true;
                let st = self.jobs[i].state.status;
                if st == JobStatus::Pending || st == JobStatus::Running {
                    self.jobs[i].state.status = JobStatus::Cancelled;
                }
                Ok(())
            },
            None => Err(StoreError::NotFound),
        }
    }
}

/// The merge of optional fields into one file's state, progress clamped
/// into 0 ..= 10_000.
pub open spec fn spec_file_merged(
    f: JobFileState,
    status: Option<JobStatus>,
    progress: Option<u32>,
    output_path: Option<String>,
    error: Option<String>,
) -> JobFileState {
    JobFileState {
        input_path: f.input_path,
        output_path: match output_path {
            Some(p) => Some(p),
            None => f.output_path,
        },
        status: match status {
            Some(s) => s,
            None => f.status,
        },
        progress: match progress {
            Some(p) => if p > 10000 {
                10000
            } else {
                p
            },
            None => f.progress,
        },
        error: match error {
            Some(e) => Some(e),
            None => f.error,
        },
    }
}

/// The file list after an update at `file_index`: merged there, untouched
/// elsewhere; untouched entirely when the index is out of range.
pub open spec fn spec_files_after_update(
    files: Seq<JobFileState>,
    file_index: int,
    status: Option<JobStatus>,
    progress: Option<u32>,
    output_path: Option<String>,
    error: Option<String>,
) -> Seq<JobFileState> {
    if 0 <= file_index < files.len() {
        files.update(
            file_index,
            spec_file_merged(files[file_index], status, progress, output_path, error),
        )
    } else {
        files
    }
}

/// The net effect of one file update on the store: every other job is
/// untouched, and the addressed job has the merged file list with its
/// counts and overall progress recomputed; everything else of it is kept.
pub open spec fn spec_update_file_effect(
    pre: JobManager,
    post: JobManager,
    job_id: u64,
    file_index: int,
    status: Option<JobStatus>,
    progress: Option<u32>,
    output_path: Option<String>,
    error: Option<String>,
) -> bool {
    &&& post.next_id == pre.next_id
    &&& post.jobs@.len() == pre.jobs@.len()
    &&& forall|j: int|
        0 <= j < pre.jobs@.len() && (#[trigger] pre.jobs@[j].state.job_id) != job_id
            ==> post.jobs@[j] == pre.jobs@[j]
    &&& forall|j: int|
        0 <= j < pre.jobs@.len() && (#[trigger] pre.jobs@[j].state.job_id) == job_id ==> {
            let oj = pre.jobs@[j];
            let nj = post.jobs@[j];
            let nf = spec_files_after_update(
                oj.state.files@,
                file_index,
                status,
                progress,
                output_path,
                error,
            );
            &&& nj.request == oj.request
            &&& nj.cancel_flag == oj.cancel_flag
            &&& nj.state.files@ == nf
            &&& nj.state.completed_files == count_with_status(nf, JobStatus::Completed)
            &&& nj.state.failed_files == count_with_status(nf, JobStatus::Failed)
            &&& nj.state.cancelled_files == count_with_status(nf, JobStatus::Cancelled)
            &&& nj.state.overall_progress == spec_overall_progress(
                nf,
                oj.state.total_files as int,
            )
            &&& nj.state.job_id == oj.state.job_id
            &&& nj.state.status == oj.state.status
            &&& nj.state.created_at_ms == oj.state.created_at_ms
            &&& nj.state.started_at_ms == oj.state.started_at_ms
            &&& nj.state.completed_at_ms == oj.state.completed_at_ms
            &&& nj.state.total_files == oj.state.total_files
        }
}

impl JobManager {
    /// Merge the given fields into one file's state, then recompute the
    /// job's counts and overall progress from all its files.  An index
    /// out of range leaves the files untouched but still recomputes.
    #[verifier::rlimit(60)]
    pub fn update_file(
        &mut self,
        job_id: u64,
        file_index: usize,
        status: Option<JobStatus>,
        progress: Option<u32>,
        output_path: Option<String>,
        error: Option<String>,
    ) -> (r: Result<(), StoreError>)
        requires
            old(self).wf(),
        ensures
            final(self).wf(),
            (r is Ok) == old(self).spec_has_job(job_id),
            r matches Err(e) ==> e == StoreError::NotFound && *final(self) == *old(self),
            spec_update_file_effect(
                *old(self),
                *final(self),
                job_id,
                file_index as int,
                status,
                progress,
                output_path,
                error,
            ),
    {
        let ghost op_save = output_path;
        let ghost err_save = error;
        match self.find_index(job_id) {
            Some(i) => {
                if file_index < self.jobs[i].state.files.len() {
                    match status {
                        Some(s) => {
                            self.jobs[i].state.files[file_index].status = s;
                        },
                        None => {},
                    }
                    match progress {
                        Some(p) => {
                            let clamped = if p > 10000 {
                                10000
                            } else {
                                p
                            };
                            self.jobs[i].state.files[file_index].progress = clamped;
                        },
                        None => {},
                    }
                    match output_path {
                        Some(p) => {
                            self.jobs[i].state.files[file_index].output_path = Some(p);
                        },
                        None => {},
                    }
                    match error {
                        Some(e) => {
                            self.jobs[i].state.files[file_index].error = Some(e);
                        },
                        None => {},
                    }
                }
                proof {
                    let oldf = old(self).jobs@[i as int].state.files@;
                    let nf = spec_files_after_update(
                        oldf,
                        file_index as int,
                        status,
                        progress,
                        op_save,
                        err_save,
                    );
                    assert(self.jobs@[i as int].state.files@ =~= nf);
                }
                recalc_state(&mut self.jobs[i].state);
                proof {
                    assert forall|j: int|
                        0 <= j < old(self).jobs@.len() && (old(self).jobs@[j].state.job_id)
                            == job_id implies j == i by {
                        if j < i {
                            assert(old(self).jobs@[j].state.job_id < old(
                                self,
                            ).jobs@[i as int].state.job_id);
                        } else if j > i {
                            assert(old(self).jobs@[i as int].state.job_id < old(
                                self,
                            ).jobs@[j].state.job_id);
                        }
                    }
                }
                Ok(())
            },
            None => Err(StoreError::NotFound),
        }
    }
}

/// Spec-level agreement of two job snapshots, field by field (the file
/// lists compared element by element).
pub open spec fn state_matches(a: ImageJobState, b: ImageJobState) -> bool {
    &&& a.job_id == b.job_id
    &&& a.status == b.status
    &&& a.created_at_ms == b.created_at_ms
    &&& a.started_at_ms == b.started_at_ms
    &&& a.completed_at_ms == b.completed_at_ms
    &&& a.total_files == b.total_files
    &&& a.completed_files == b.completed_files
    &&& a.failed_files == b.failed_files
    &&& a.cancelled_files == b.cancelled_files
    &&& a.overall_progress == b.overall_progress
    &&& a.files@ == b.files@
}

/// Spec-level agreement of two requests, field by field (the input list
/// and the stage list compared by their contents).
pub open spec fn request_matches(a: ImageJobRequest, b: ImageJobRequest) -> bool {
    &&& a.inputs@ == b.inputs@
    &&& a.output_dir == b.output_dir
    &&& a.mode == b.mode
    &&& a.crop_region == b.crop_region
    &&& a.options == b.options
    &&& match (a.pipeline, b.pipeline) {
        (Some(p), Some(q)) => p@ == q@,
        (None, None) => true,
        _ => false,
    }
    &&& a.max_concurrency == b.max_concurrency
}

/// A deep copy of one file's state.
fn snapshot_file(f: &JobFileState) -> (r: JobFileState)
    ensures
        r == *f,
{
    JobFileState {
        input_path: f.input_path.clone(),
        output_path: match &f.output_path {
            Some(p) => Some(p.clone()),
            None => None,
        },
        status: f.status,
        progress: f.progress,
        error: match &f.error {
            Some(e) => Some(e.clone()),
            None => None,
        },
    }
}

/// A deep copy of one job snapshot.
fn snapshot_state(s: &ImageJobState) -> (r: ImageJobState)
    ensures
        state_matches(r, *s),
{
    let n = s.files.len();
    let mut files: Vec<JobFileState> = Vec::new();
    let mut i: usize = 0;
    while i < n
        invariant
            n == s.files@.len(),
            i <= n,
            files@.len() == i,
            forall|j: int| 0 <= j < i ==> #[trigger] files@[j] == s.files@[j],
        decreases n - i,
    {
        files.push(snapshot_file(&s.files[i]));
        i = i + 1;
    }
    proof {
        assert(files@ =~= s.files@);
    }
    ImageJobState {
        job_id: s.job_id,
        status: s.status,
        created_at_ms: s.created_at_ms,
        started_at_ms: s.started_at_ms,
        completed_at_ms: s.completed_at_ms,
        total_files: s.total_files,
        completed_files: s.completed_files,
        failed_files: s.failed_files,
        cancelled_files: s.cancelled_files,
        overall_progress: s.overall_progress,
        files,
    }
}

/// A deep copy of one request.
fn snapshot_request(q: &ImageJobRequest) -> (r: ImageJobRequest)
    ensures
        request_matches(r, *q),
{
    let inputs = q.inputs.clone();
    proof {
        assert(inputs@ =~= q.inputs@);
    }
    let pipeline = match &q.pipeline {
        Some(v) => {
            let n = v.len();
            let mut out: Vec<crate::stage::PipelineStageKind> = Vec::new();
            let mut i: usize = 0;
            while i < n
                invariant
                    n == v@.len(),
                    i <= n,
                    out@.len() == i,
                    forall|j: int| 0 <= j < i ==> #[trigger] out@[j] == v@[j],
                decreases n - i,
            {
                out.push(v[i]);
                i = i + 1;
            }
            proof {
                assert(out@ =~= v@);
            }
            Some(out)
        },
        None => None,
    };
    ImageJobRequest {
        inputs,
        output_dir: match &q.output_dir {
            Some(d) => Some(d.clone()),
            None => None,
        },
        mode: q.mode,
        crop_region: q.crop_region,
        options: match &q.options {
            Some(o) => Some(
                crate::types::ProcessOptions {
                    quality: o.quality,
                    format: match &o.format {
                        Some(f) => Some(f.clone()),
                        None => None,
                    },
                    width: o.width,
                    height: o.height,
                },
            ),
            None => None,
        },
        pipeline,
        max_concurrency: q.max_concurrency,
    }
}

/// Recompute a job's aggregate counts and overall progress by scanning
/// all its files.
fn recalc_state(state: &mut ImageJobState)
    requires
        files_progress_bounded(old(state).files@),
        old(state).files@.len() == old(state).total_files,
        old(state).total_files < 0x8000_0000,
    ensures
        final(state).job_id == old(state).job_id,
        final(state).status == old(state).status,
        final(state).created_at_ms == old(state).created_at_ms,
        final(state).started_at_ms == old(state).started_at_ms,
        final(state).completed_at_ms == old(state).completed_at_ms,
        final(state).total_files == old(state).total_files,
        final(state).files@ == old(state).files@,
        final(state).completed_files == count_with_status(
            old(state).files@,
            JobStatus::Completed,
        ),
        final(state).failed_files == count_with_status(old(state).files@, JobStatus::Failed),
        final(state).cancelled_files == count_with_status(
            old(state).files@,
            JobStatus::Cancelled,
        ),
        final(state).overall_progress == spec_overall_progress(
            old(state).files@,
            old(state).total_files as int,
        ),
        final(state).overall_progress <= 10000,
    {
        let ghost files = state.files@;
        let n = state.files.len();
        let mut completed: usize = 0;
        let mut failed: usize = 0;
        let mut cancelled: usize = 0;
        let mut sum: u64 = 0;
        let mut i: usize = 0;
        proof {
            assert(files.take(0) =~= Seq::<JobFileState>::empty());
        }
        while i < n
            invariant
                n == files.len(),
                n < 0x8000_0000,
                state.files@ == files,
                files_progress_bounded(files),
                i <= n,
                completed == count_with_status(files.take(i as int), JobStatus::Completed),
                failed == count_with_status(files.take(i as int), JobStatus::Failed),
                cancelled == count_with_status(files.take(i as int), JobStatus::Cancelled),
                completed <= i,
                failed <= i,
                cancelled <= i,
                sum == sum_progress(files.take(i as int)),
                sum <= 10000 * i,
            decreases n - i,
        {
            proof {
                assert(files.take(i + 1).drop_last() =~= files.take(i as int));
                assert(files.take(i + 1).last() == files[i as int]);
            }
            let f_status = state.files[i].status;
            if f_status == JobStatus::Completed {
                completed = completed + 1;
            }
            if f_status == JobStatus::Failed {
                failed = failed + 1;
            }
            if f_status == JobStatus::Cancelled {
                cancelled = cancelled + 1;
            }
            sum = sum + state.files[i].progress as u64;
            i = i + 1;
        }
        proof {
            assert(files.take(n as int) =~= files);
        }
        state.completed_files = completed;
        state.failed_files = failed;
        state.cancelled_files = cancelled;
        if state.total_files == 0 {
            state.overall_progress = 10000;
        } else {
            let total = state.total_files as u64;
            let q = sum / total;
            proof {
                lemma_div_is_ordered(
                    sum as int,
                    10000 * (state.total_files as int),
                    state.total_files as int,
                );
                lemma_div_multiples_vanish(10000, state.total_files as int);
            }
            state.overall_progress = q as u32;
        }
    }

/// Two successive progress-only updates of the same file collapse into
/// the second: the first is overwritten field for field.
pub proof fn lemma_update_effect_compose_running(
    pre: JobManager,
    mid: JobManager,
    post: JobManager,
    job_id: u64,
    file_index: int,
    p1: u32,
    p2: u32,
)
    requires
        spec_update_file_effect(
            pre,
            mid,
            job_id,
            file_index,
            Some(JobStatus::Running),
            Some(p1),
            None,
            None,
        ),
        spec_update_file_effect(
            mid,
            post,
            job_id,
            file_index,
            Some(JobStatus::Running),
            Some(p2),
            None,
            None,
        ),
    ensures
        spec_update_file_effect(
            pre,
            post,
            job_id,
            file_index,
            Some(JobStatus::Running),
            Some(p2),
            None,
            None,
        ),
{
    assert forall|j: int| 0 <= j < pre.jobs@.len() && (#[trigger] pre.jobs@[j].state.job_id)
        == job_id implies {
        let oj = pre.jobs@[j];
        let nj = post.jobs@[j];
        let nf = spec_files_after_update(
            oj.state.files@,
            file_index,
            Some(JobStatus::Running),
            Some(p2),
            None,
            None,
        );
        &&& nj.request == oj.request
        &&& nj.cancel_flag == oj.cancel_flag
        &&& nj.state.files@ == nf
        &&& nj.state.completed_files == count_with_status(nf, JobStatus::Completed)
        &&& nj.state.failed_files == count_with_status(nf, JobStatus::Failed)
        &&& nj.state.cancelled_files == count_with_status(nf, JobStatus::Cancelled)
        &&& nj.state.overall_progress == spec_overall_progress(nf, oj.state.total_files as int)
        &&& nj.state.job_id == oj.state.job_id
        &&& nj.state.status == oj.state.status
        &&& nj.state.created_at_ms == oj.state.created_at_ms
        &&& nj.state.started_at_ms == oj.state.started_at_ms
        &&& nj.state.completed_at_ms == oj.state.completed_at_ms
        &&& nj.state.total_files == oj.state.total_files
    } by {
        let oj = pre.jobs@[j];
        let mj = mid.jobs@[j];
        assert(mj.state.job_id == oj.state.job_id);
        let f1 = spec_files_after_update(
            oj.state.files@,
            file_index,
            Some(JobStatus::Running),
            Some(p1),
            None,
            None,
        );
        let f2 = spec_files_after_update(
            mj.state.files@,
            file_index,
            Some(JobStatus::Running),
            Some(p2),
            None,
            None,
        );
        let nf = spec_files_after_update(
            oj.state.files@,
            file_index,
            Some(JobStatus::Running),
            Some(p2),
            None,
            None,
        );
        assert(mj.state.files@ == f1);
        assert(f2 =~= nf);
    }
    assert forall|j: int| 0 <= j < pre.jobs@.len() && (#[trigger] pre.jobs@[j].state.job_id)
        != job_id implies post.jobs@[j] == pre.jobs@[j] by {
        assert(mid.jobs@[j] == pre.jobs@[j]);
        assert(mid.jobs@[j].state.job_id != job_id);
    }
}

/// For every well-formed job snapshot, the three terminal counts together
/// never exceed the total file count; and once every file is terminal,
/// they equal it exactly.
pub proof fn lemma_job_counts(s: ImageJobState)
    requires
        state_wf(s),
    ensures
        s.completed_files + s.failed_files + s.cancelled_files <= s.total_files,
        (forall|i: int|
            0 <= i < s.files@.len() ==> spec_is_terminal(#[trigger] s.files@[i].status))
            ==> s.completed_files + s.failed_files + s.cancelled_files == s.total_files,
{
    lemma_distinct_counts_le_len(
        s.files@,
        JobStatus::Completed,
        JobStatus::Failed,
        JobStatus::Cancelled,
    );
    if forall|i: int|
        0 <= i < s.files@.len() ==> spec_is_terminal(#[trigger] s.files@[i].status) {
        lemma_all_terminal_counts_exact(s.files@);
    }
}

/// A well-formed job snapshot's overall progress lies in 0 ..= 100%.
pub proof fn lemma_overall_progress_in_range(s: ImageJobState)
    requires
        state_wf(s),
    ensures
        0 <= s.overall_progress <= 10000,
{
}

/// A recomputed overall progress reaches 100% exactly when every file is
/// at 100% (for a job with at least one file).
pub proof fn lemma_overall_full_iff_all_files_full(files: Seq<JobFileState>, total_files: int)
    requires
        total_files >= 1,
        files.len() == total_files,
        files_progress_bounded(files),
    ensures
        (spec_overall_progress(files, total_files) == 10000) <==> (forall|i: int|
            0 <= i < files.len() ==> (#[trigger] files[i].progress) == 10000),
{
    if forall|i: int| 0 <= i < files.len() ==> (#[trigger] files[i].progress) == 10000 {
        lemma_sum_progress_all_full(files);
        lemma_div_multiples_vanish(10000, total_files);
        assert(total_files * 10000 == 10000 * files.len());
    } else {
        let i = choose|i: int| 0 <= i < files.len() && (#[trigger] files[i].progress) != 10000;
        assert(files[i].progress < 10000);
        lemma_sum_progress_strict(files, i);
        lemma_multiply_divide_lt(sum_progress(files), total_files, 10000);
    }
}

/// The progress sum of files that are all at 100%.
proof fn lemma_sum_progress_all_full(files: Seq<JobFileState>)
    requires
        forall|i: int| 0 <= i < files.len() ==> (#[trigger] files[i].progress) == 10000,
    ensures
        sum_progress(files) == 10000 * files.len(),
    decreases files.len(),
{
    if files.len() > 0 {
        assert(forall|i: int|
            0 <= i < files.drop_last().len() ==> (#[trigger] files.drop_last()[i].progress)
                == 10000);
        lemma_sum_progress_all_full(files.drop_last());
    }
}

/// The progress sum of a bounded file list with one file short of full is
/// strictly below full for every file.
proof fn lemma_sum_progress_strict(files: Seq<JobFileState>, i: int)
    requires
        files_progress_bounded(files),
        0 <= i < files.len(),
        files[i].progress < 10000,
    ensures
        sum_progress(files) < 10000 * files.len(),
    decreases files.len(),
{
    assert(files_progress_bounded(files.drop_last()));
    if i == files.len() - 1 {
        lemma_sum_progress_bounds(files.drop_last());
    } else {
        lemma_sum_progress_strict(files.drop_last(), i);
    }
}

} // verus!
