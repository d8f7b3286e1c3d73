//! Data model: requests, job and file state, progress events, and the
//! error taxonomy.  Progress fields hold hundredths of a percent
//! (0 ..= 10_000).

use vstd::prelude::*;

use crate::stage::PipelineStageKind;

verus! {

/// A rectangular crop region in pixels.
#[derive(Debug, Clone, Copy, PartialEq, Eq, Structural)]
pub struct CropRegion {
    pub x: u32,
    pub y: u32,
    pub width: u32,
    pub height: u32,
}

/// Optional processing options of a request.
#[derive(Debug, Clone)]
pub struct ProcessOptions {
    pub quality: Option<u8>,
    pub format: Option<String>,
    pub width: Option<u32>,
    pub height: Option<u32>,
}

/// Compression mode for encoding.
#[derive(Debug, Clone, Copy, PartialEq, Eq, Structural)]
pub enum CompressMode {
    Lossless,
    VisuallyLossless,
}

/// Metadata of one file on disk, as far as it could be read.
#[derive(Debug, Clone)]
pub struct FileInfo {
    pub path: String,
    pub size_bytes: u64,
    pub format: Option<String>,
    pub width: Option<u32>,
    pub height: Option<u32>,
}

/// Image metadata without the path.
#[derive(Debug, Clone)]
pub struct ImageMetadata {
    pub size_bytes: u64,
    pub format: Option<String>,
    pub width: Option<u32>,
    pub height: Option<u32>,
}

/// Options of a standalone crop operation.
#[derive(Debug, Clone)]
pub struct CropOptions {
    pub x: u32,
    pub y: u32,
    pub width: u32,
    pub height: u32,
    pub circular: Option<bool>,
    pub output_format: Option<String>,
}

/// Outcome of probing for an external video transcoder.
#[derive(Debug, Clone)]
pub struct FfmpegCheckResult {
    pub available: bool,
    pub path: String,
    pub version: String,
}

/// Status of a job or of one file of a job.
#[derive(Debug, Clone, Copy, PartialEq, Eq, Structural, Hash)]
pub enum JobStatus {
    Pending,
    Running,
    Completed,
    Failed,
    Cancelled,
}

/// A status is terminal when it is Completed, Failed or Cancelled.
pub open spec fn spec_is_terminal(s: JobStatus) -> bool {
    s == JobStatus::Completed || s == JobStatus::Failed || s == JobStatus::Cancelled
}

impl JobStatus {
    /// Whether this status is one of the three terminal ones.
    pub fn is_terminal(self) -> (r: bool)
        ensures
            r == spec_is_terminal(self),
    {
        match self {
            JobStatus::Completed | JobStatus::Failed | JobStatus::Cancelled => true,
            JobStatus::Pending | JobStatus::Running => false,
        }
    }
}

/// A request for one batch job.
#[derive(Debug, Clone)]
pub struct ImageJobRequest {
    pub inputs: Vec<String>,
    pub output_dir: Option<String>,
    pub mode: Option<CompressMode>,
    pub crop_region: Option<CropRegion>,
    pub options: Option<ProcessOptions>,
    pub pipeline: Option<Vec<PipelineStageKind>>,
    /// Advisory concurrency hint; unused by this core.
    pub max_concurrency: Option<usize>,
}

/// State of one file of a job.  `progress` is in hundredths of a percent.
#[derive(Debug, Clone)]
pub struct JobFileState {
    pub input_path: String,
    pub output_path: Option<String>,
    pub status: JobStatus,
    pub progress: u32,
    pub error: Option<String>,
}

/// Snapshot of one job.  `overall_progress` is in hundredths of a percent.
#[derive(Debug, Clone)]
pub struct ImageJobState {
    pub job_id: u64,
    pub status: JobStatus,
    pub created_at_ms: u64,
    pub started_at_ms: Option<u64>,
    pub completed_at_ms: Option<u64>,
    pub total_files: usize,
    pub completed_files: usize,
    pub failed_files: usize,
    pub cancelled_files: usize,
    pub overall_progress: u32,
    pub files: Vec<JobFileState>,
}

/// Transient progress snapshot emitted outward; never stored.
#[derive(Debug, Clone)]
pub struct ImageJobProgressEvent {
    pub job_id: u64,
    pub file_index: usize,
    pub total_files: usize,
    pub input_path: Option<String>,
    pub output_path: Option<String>,
    pub stage: Option<PipelineStageKind>,
    pub stage_progress: u32,
    pub overall_progress: u32,
    pub status: JobStatus,
    pub message: Option<String>,
    pub error: Option<String>,
}

impl ProcessOptions {
    /// A deep copy of the options.
    pub fn duplicate(&self) -> (r: ProcessOptions)
        ensures
            r == *self,
    {
        ProcessOptions {
            quality: self.quality,
            format: match &self.format {
                Some(f) => Some(f.clone()),
                None => None,
            },
            width: self.width,
            height: self.height,
        }
    }
}

/// Why a request or a stage sequence was rejected before admission.
#[derive(Debug, Clone, Copy, PartialEq, Eq, Structural)]
pub enum ValidationError {
    EmptyInputs,
    InputNotFound { index: usize },
    OutputDirNotFound,
    OutputDirNotDirectory,
    QualityOutOfRange,
    ZeroWidth,
    ZeroHeight,
    ZeroCropSize,
    EmptyPipeline,
    StageOrderDecreasing,
    SaveCountNotOne,
}

/// Why a store operation failed.
#[derive(Debug, Clone, Copy, PartialEq, Eq, Structural)]
pub enum StoreError {
    /// No job with the given id exists.
    NotFound,
    /// Fatal internal corruption; never produced by this store.
    Unavailable,
}

/// Why a crop could not be applied.
#[derive(Debug, Clone, Copy, PartialEq, Eq, Structural)]
pub enum CropError {
    /// `x + width` overflows.
    OverflowX,
    /// `y + height` overflows.
    OverflowY,
    /// The region reaches outside the image.
    OutOfBounds,
}

/// Why a file's pipeline run ended early.  Cancellation is a tagged
/// first-class case, distinguishable by type rather than message text.
#[derive(Debug, Clone, PartialEq, Eq)]
pub enum PipelineError {
    /// The cooperative cancellation flag was observed set.
    Cancelled,
    /// The crop stage rejected the region.
    Crop(CropError),
    /// A codec or filesystem failure, propagated verbatim.
    Codec(String),
}

/// The message text of a pipeline outcome.
pub open spec fn spec_error_message(e: PipelineError) -> Seq<char> {
    match e {
        PipelineError::Cancelled => "Job cancelled"@,
        PipelineError::Crop(CropError::OverflowX) => "Crop region overflow on x + width"@,
        PipelineError::Crop(CropError::OverflowY) => "Crop region overflow on y + height"@,
        PipelineError::Crop(CropError::OutOfBounds) => "Crop region out of bounds"@,
        PipelineError::Codec(s) => s@,
    }
}

impl PipelineError {
    /// Whether this outcome is the distinguished cancellation signal.
    pub fn is_cancelled(&self) -> (r: bool)
        ensures
            r == (*self == PipelineError::Cancelled),
    {
        match self {
            PipelineError::Cancelled => true,
            PipelineError::Crop(_) => false,
            PipelineError::Codec(_) => false,
        }
    }

    /// A human-readable message for this outcome.
    pub fn message(&self) -> (r: String)
        ensures
            r@ == spec_error_message(*self),
    {
        match self {
            PipelineError::Cancelled => "Job cancelled".to_owned(),
            PipelineError::Crop(CropError::OverflowX) => "Crop region overflow on x + width".to_owned(),
            PipelineError::Crop(CropError::OverflowY) => "Crop region overflow on y + height".to_owned(),
            PipelineError::Crop(CropError::OutOfBounds) => "Crop region out of bounds".to_owned(),
            PipelineError::Codec(s) => s.clone(),
        }
    }
}

/// Number of files in the sequence with the given status.
pub open spec fn count_with_status(files: Seq<JobFileState>, status: JobStatus) -> int
    decreases files.len(),
{
    if files.len() == 0 {
        0
    } else {
        count_with_status(files.drop_last(), status)
            + if files.last().status == status { 1int } else { 0int }
    }
}

/// Sum of the per-file progress values.
pub open spec fn sum_progress(files: Seq<JobFileState>) -> int
    decreases files.len(),
{
    if files.len() == 0 {
        0
    } else {
        sum_progress(files.drop_last()) + files.last().progress
    }
}

/// Every file's progress lies in 0 ..= 10_000.
pub open spec fn files_progress_bounded(files: Seq<JobFileState>) -> bool {
    forall|i: int| 0 <= i < files.len() ==> #[trigger] files[i].progress <= 10000
}

/// Well-formedness of a job snapshot: the file list matches `total_files`,
/// the three terminal counts are exactly the counts over the files, and
/// all progress values lie in range.
pub open spec fn state_wf(s: ImageJobState) -> bool {
    &&& s.files.len() == s.total_files
    &&& s.completed_files == count_with_status(s.files@, JobStatus::Completed)
    &&& s.failed_files == count_with_status(s.files@, JobStatus::Failed)
    &&& s.cancelled_files == count_with_status(s.files@, JobStatus::Cancelled)
    &&& files_progress_bounded(s.files@)
    &&& s.overall_progress <= 10000
}

/// A count of one status never exceeds the number of files.
pub proof fn lemma_count_le_len(files: Seq<JobFileState>, status: JobStatus)
    ensures
        0 <= count_with_status(files, status) <= files.len(),
    decreases files.len(),
{
    if files.len() > 0 {
        lemma_count_le_len(files.drop_last(), status);
    }
}

/// The counts of distinct statuses together never exceed the number of
/// files: each file has exactly one status.
pub proof fn lemma_distinct_counts_le_len(
    files: Seq<JobFileState>,
    a: JobStatus,
    b: JobStatus,
    c: JobStatus,
)
    requires
        a != b,
        a != c,
        b != c,
    ensures
        count_with_status(files, a) + count_with_status(files, b) + count_with_status(files, c)
            <= files.len(),
    decreases files.len(),
{
    if files.len() > 0 {
        lemma_distinct_counts_le_len(files.drop_last(), a, b, c);
    }
}

/// If every file is terminal, the three terminal counts together equal
/// the number of files.
pub proof fn lemma_all_terminal_counts_exact(files: Seq<JobFileState>)
    requires
        forall|i: int| 0 <= i < files.len() ==> spec_is_terminal(#[trigger] files[i].status),
    ensures
        count_with_status(files, JobStatus::Completed)
            + count_with_status(files, JobStatus::Failed)
            + count_with_status(files, JobStatus::Cancelled) == files.len(),
    decreases files.len(),
{
    if files.len() > 0 {
        assert(spec_is_terminal(files.last().status));
        assert(forall|i: int| 0 <= i < files.drop_last().len()
            ==> spec_is_terminal(#[trigger] files.drop_last()[i].status));
        lemma_all_terminal_counts_exact(files.drop_last());
    }
}

/// The sum of bounded progress values is bounded by 10_000 per file.
pub proof fn lemma_sum_progress_bounds(files: Seq<JobFileState>)
    requires
        files_progress_bounded(files),
    ensures
        0 <= sum_progress(files) <= 10000 * files.len(),
    decreases files.len(),
{
    if files.len() > 0 {
        assert(files_progress_bounded(files.drop_last()));
        lemma_sum_progress_bounds(files.drop_last());
    }
}

} // verus!
