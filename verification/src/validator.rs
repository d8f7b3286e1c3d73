//! Request validation, pipeline derivation and pipeline validation.
//! Everything here is decided before a job is admitted; a rejected
//! request registers no job and has no side effects.

use vstd::prelude::*;

use crate::stage::{spec_order, PipelineStageKind};
use crate::text::{is_explicit_format, spec_is_explicit_format};
use crate::types::{ImageJobRequest, ValidationError};

verus! {

/// What the file system reports about a request's paths; gathered by the
/// caller before validation, in the same order as the request's inputs.
pub struct RequestPathFacts {
    /// For each input path, whether it exists.
    pub input_exists: Vec<bool>,
    /// Whether the output directory exists; meaningful only when the
    /// request names one.
    pub output_dir_exists: bool,
    /// Whether the output directory is a directory; meaningful only when
    /// the request names one.
    pub output_dir_is_dir: bool,
}

/// Index of the first input reported missing, or the length when none is.
pub open spec fn spec_first_missing(exists: Seq<bool>) -> int
    decreases exists.len(),
{
    if exists.len() == 0 {
        0
    } else if !exists.first() {
        0
    } else {
        1 + spec_first_missing(exists.drop_first())
    }
}

/// The first missing index is in range and behaves as described.
pub proof fn lemma_first_missing(exists: Seq<bool>)
    ensures
        0 <= spec_first_missing(exists) <= exists.len(),
        spec_first_missing(exists) < exists.len() ==> !exists[spec_first_missing(exists)],
        forall|i: int| 0 <= i < spec_first_missing(exists) ==> exists[i],
    decreases exists.len(),
{
    if exists.len() > 0 && exists.first() {
        lemma_first_missing(exists.drop_first());
        assert forall|i: int| 0 <= i < spec_first_missing(exists) implies exists[i] by {
            if i > 0 {
                assert(exists.drop_first()[i - 1] == exists[i]);
            }
        }
    }
}

/// The outcome of validating a request against the path facts: the checks
/// run in a fixed order and the first violation is reported.
pub open spec fn spec_validate_job_request(
    req: ImageJobRequest,
    exists: Seq<bool>,
    dir_exists: bool,
    dir_is_dir: bool,
) -> Result<(), ValidationError> {
    if req.inputs.len() == 0 {
        Err(ValidationError::EmptyInputs)
    } else if spec_first_missing(exists) < exists.len() {
        Err(ValidationError::InputNotFound { index: spec_first_missing(exists) as usize })
    } else if req.output_dir is Some && !dir_exists {
        Err(ValidationError::OutputDirNotFound)
    } else if req.output_dir is Some && !dir_is_dir {
        Err(ValidationError::OutputDirNotDirectory)
    } else if match req.options {
        Some(o) => match o.quality {
            Some(q) => q < 1 || q > 100,
            None => false,
        },
        None => false,
    } {
        Err(ValidationError::QualityOutOfRange)
    } else if match req.options {
        Some(o) => o.width == Some(0u32),
        None => false,
    } {
        Err(ValidationError::ZeroWidth)
    } else if match req.options {
        Some(o) => o.height == Some(0u32),
        None => false,
    } {
        Err(ValidationError::ZeroHeight)
    } else if match req.crop_region {
        Some(c) => c.width == 0 || c.height == 0,
        None => false,
    } {
        Err(ValidationError::ZeroCropSize)
    } else {
        Ok(())
    }
}

/// Validate a request against the path facts, in the fixed order:
/// non-empty inputs, every input present, output directory present and a
/// directory, quality in 1 ..= 100, width and height positive, crop
/// dimensions positive.
pub fn validate_job_request(request: &ImageJobRequest, facts: &RequestPathFacts) -> (r: Result<
    (),
    ValidationError,
>)
    requires
        facts.input_exists@.len() == request.inputs@.len(),
    ensures
        r == spec_validate_job_request(
            *request,
            facts.input_exists@,
            facts.output_dir_exists,
            facts.output_dir_is_dir,
        ),
{
    if request.inputs.len() == 0 {
        return Err(ValidationError::EmptyInputs);
    }
    let n = facts.input_exists.len();
    let fm = first_missing_index(&facts.input_exists);
    if fm < n {
        return Err(ValidationError::InputNotFound { index: fm });
    }
    if request.output_dir.is_some() {
        if !facts.output_dir_exists {
            return Err(ValidationError::OutputDirNotFound);
        }
        if !facts.output_dir_is_dir {
            return Err(ValidationError::OutputDirNotDirectory);
        }
    }
    match &request.options {
        Some(o) => {
            match o.quality {
                Some(q) => {
                    if q < 1 || q > 100 {
                        return Err(ValidationError::QualityOutOfRange);
                    }
                },
                None => {},
            }
            match o.width {
                Some(w) => {
                    if w == 0 {
                        return Err(ValidationError::ZeroWidth);
                    }
                },
                None => {},
            }
            match o.height {
                Some(h) => {
                    if h == 0 {
                        return Err(ValidationError::ZeroHeight);
                    }
                },
                None => {},
            }
        },
        None => {},
    }
    match &request.crop_region {
        Some(c) => {
            if c.width == 0 || c.height == 0 {
                return Err(ValidationError::ZeroCropSize);
            }
        },
        None => {},
    }
    Ok(())
}

/// Find the index of the first entry reported missing, or the length
/// when none is.
fn first_missing_index(v: &Vec<bool>) -> (r: usize)
    ensures
        r == spec_first_missing(v@),
{
    let n = v.len();
    let mut i: usize = 0;
    proof {
        lemma_first_missing(v@);
    }
    while i < n
        invariant
            n == v@.len(),
            i <= n,
            forall|j: int| 0 <= j < i ==> v@[j],
            spec_first_missing(v@) >= i,
        decreases n - i,
    {
        if !v[i] {
            proof {
                lemma_first_missing(v@);
                if spec_first_missing(v@) > i {
                    assert(v@[i as int]);
                }
            }
            return i;
        }
        proof {
            lemma_first_missing_step(v@, i as int);
        }
        i = i + 1;
    }
    proof {
        lemma_first_missing(v@);
    }
    i
}

/// If the first `k + 1` entries are all true, the first missing index
/// lies past them.
proof fn lemma_first_missing_step(exists: Seq<bool>, k: int)
    requires
        0 <= k < exists.len(),
        forall|j: int| 0 <= j <= k ==> exists[j],
    ensures
        spec_first_missing(exists) >= k + 1,
    decreases k,
{
    assert(exists[0]);
    lemma_first_missing(exists.drop_first());
    if k > 0 {
        assert forall|j: int| 0 <= j <= k - 1 implies exists.drop_first()[j] by {
            assert(exists[j + 1]);
        }
        lemma_first_missing_step(exists.drop_first(), k - 1);
    }
}

/// Whether the options ask for a resize stage: a width or height is given
/// (even zero; validation rejects zero separately).
pub open spec fn spec_wants_resize(req: ImageJobRequest) -> bool {
    match req.options {
        Some(o) => o.width is Some || o.height is Some,
        None => false,
    }
}

/// Whether the options name an explicit output format.
pub open spec fn spec_wants_convert(req: ImageJobRequest) -> bool {
    match req.options {
        Some(o) => match o.format {
            Some(f) => spec_is_explicit_format(f@),
            None => false,
        },
        None => false,
    }
}

/// The stage sequence derived from a request without an explicit one:
/// Crop when a crop region is present, Resize when a width or height is
/// given, Convert when an explicit format is named, then always Compress
/// and Save.
pub open spec fn spec_derived_pipeline(req: ImageJobRequest) -> Seq<PipelineStageKind> {
    let crop: Seq<PipelineStageKind> = if req.crop_region is Some {
        seq![PipelineStageKind::Crop]
    } else {
        Seq::empty()
    };
    let resize: Seq<PipelineStageKind> = if spec_wants_resize(req) {
        seq![PipelineStageKind::Resize]
    } else {
        Seq::empty()
    };
    let convert: Seq<PipelineStageKind> = if spec_wants_convert(req) {
        seq![PipelineStageKind::Convert]
    } else {
        Seq::empty()
    };
    crop + resize + convert + seq![PipelineStageKind::Compress, PipelineStageKind::Save]
}

/// The stage sequence of a request: the explicit one when given, else the
/// derived one.
pub open spec fn spec_resolve_pipeline(req: ImageJobRequest) -> Seq<PipelineStageKind> {
    match req.pipeline {
        Some(p) => p@,
        None => spec_derived_pipeline(req),
    }
}

/// Resolve the stage sequence of a request.
pub fn resolve_pipeline(request: &ImageJobRequest) -> (r: Vec<PipelineStageKind>)
    ensures
        r@ == spec_resolve_pipeline(*request),
{
    match &request.pipeline {
        Some(p) => {
            return p.clone();
        },
        None => {},
    }
    let mut stages: Vec<PipelineStageKind> = Vec::new();
    if request.crop_region.is_some() {
        stages.push(PipelineStageKind::Crop);
    }
    match &request.options {
        Some(o) => {
            if o.width.is_some() || o.height.is_some() {
                stages.push(PipelineStageKind::Resize);
            }
            match &o.format {
                Some(f) => {
                    if is_explicit_format(f.as_str()) {
                        stages.push(PipelineStageKind::Convert);
                    }
                },
                None => {},
            }
        },
        None => {},
    }
    stages.push(PipelineStageKind::Compress);
    stages.push(PipelineStageKind::Save);
    proof {
        assert(stages@ =~= spec_derived_pipeline(*request));
    }
    stages
}

/// Number of Save stages in a sequence.
pub open spec fn spec_save_count(stages: Seq<PipelineStageKind>) -> int
    decreases stages.len(),
{
    if stages.len() == 0 {
        0
    } else {
        spec_save_count(stages.drop_last()) + if stages.last() == PipelineStageKind::Save {
            1int
        } else {
            0int
        }
    }
}

/// Whether the stage order values never decrease across the sequence.
pub open spec fn spec_order_ok(stages: Seq<PipelineStageKind>) -> bool {
    forall|i: int, j: int|
        0 <= i < j < stages.len() ==> spec_order(#[trigger] stages[i]) <= spec_order(
            #[trigger] stages[j],
        )
}

/// The outcome of validating a stage sequence: it must be non-empty, its
/// order values must never decrease, and Save must occur exactly once.
/// An order violation is reported before a wrong Save count.
pub open spec fn spec_validate_pipeline(stages: Seq<PipelineStageKind>) -> Result<
    (),
    ValidationError,
> {
    if stages.len() == 0 {
        Err(ValidationError::EmptyPipeline)
    } else if !spec_order_ok(stages) {
        Err(ValidationError::StageOrderDecreasing)
    } else if spec_save_count(stages) != 1 {
        Err(ValidationError::SaveCountNotOne)
    } else {
        Ok(())
    }
}

/// Count the Save stages in a sequence.
fn count_save_stages(stages: &Vec<PipelineStageKind>) -> (r: usize)
    ensures
        r == spec_save_count(stages@),
{
    let mut count: usize = 0;
    let mut i: usize = 0;
    proof {
        assert(stages@.take(0) =~= Seq::<PipelineStageKind>::empty());
    }
    while i < stages.len()
        invariant
            i <= stages@.len(),
            count == spec_save_count(stages@.take(i as int)),
            count <= i,
        decreases stages@.len() - i,
    {
        proof {
            assert(stages@.take(i + 1).drop_last() =~= stages@.take(i as int));
            assert(stages@.take(i + 1).last() == stages@[i as int]);
        }
        if stages[i] == PipelineStageKind::Save {
            count = count + 1;
        }
        i = i + 1;
    }
    proof {
        assert(stages@.take(stages@.len() as int) =~= stages@);
    }
    count
}

/// Check that the stage order values never decrease across the sequence.
fn stage_order_ok(stages: &Vec<PipelineStageKind>) -> (r: bool)
    ensures
        r == spec_order_ok(stages@),
{
    if stages.len() == 0 {
        return true;
    }
    let mut prev_order: u8 = stages[0].order();
    let mut i: usize = 1;
    while i < stages.len()
        invariant
            1 <= i <= stages@.len(),
            prev_order == spec_order(stages@[i - 1]),
            forall|a: int, b: int|
                0 <= a < b < i ==> spec_order(#[trigger] stages@[a]) <= spec_order(
                    #[trigger] stages@[b],
                ),
        decreases stages@.len() - i,
    {
        let order = stages[i].order();
        if order < prev_order {
            proof {
                assert(spec_order(stages@[i - 1]) > spec_order(stages@[i as int]));
            }
            return false;
        }
        proof {
            assert forall|a: int, b: int| 0 <= a < b < i + 1 implies spec_order(
                #[trigger] stages@[a],
            ) <= spec_order(#[trigger] stages@[b]) by {
                if b == i && a < i - 1 {
                    assert(spec_order(stages@[a]) <= spec_order(stages@[i - 1]));
                }
            }
        }
        prev_order = order;
        i = i + 1;
    }
    true
}

/// Validate a stage sequence.  Rejects an empty sequence, a decreasing
/// order value, and a sequence whose Save count is not exactly one.
pub fn validate_pipeline(stages: &Vec<PipelineStageKind>) -> (r: Result<(), ValidationError>)
    ensures
        r == spec_validate_pipeline(stages@),
{
    if stages.len() == 0 {
        return Err(ValidationError::EmptyPipeline);
    }
    if !stage_order_ok(stages) {
        return Err(ValidationError::StageOrderDecreasing);
    }
    if count_save_stages(stages) != 1 {
        return Err(ValidationError::SaveCountNotOne);
    }
    Ok(())
}

/// A derived stage sequence always passes validation: the construction
/// satisfies the ordering invariant by design and appends Save exactly
/// once.
pub proof fn lemma_derived_pipeline_valid(req: ImageJobRequest)
    ensures
        spec_validate_pipeline(spec_derived_pipeline(req)) == Ok::<(), ValidationError>(()),
{
    let s = spec_derived_pipeline(req);
    assert(s.len() >= 2);
    assert forall|i: int| 0 <= i < s.len() - 1 implies spec_order(#[trigger] s[i]) < spec_order(
        s[i + 1],
    ) by {
        lemma_derived_pipeline_shape(req, i);
        lemma_derived_pipeline_shape(req, i + 1);
    }
    assert forall|a: int, b: int| 0 <= a < b < s.len() implies spec_order(#[trigger] s[a])
        <= spec_order(#[trigger] s[b]) by {
        lemma_inc_pairwise(s, a, b);
    }
    lemma_derived_save_count(req);
}

/// Strictly increasing adjacent order values give increasing order values
/// over any pair of positions.
proof fn lemma_inc_pairwise(s: Seq<PipelineStageKind>, a: int, b: int)
    requires
        0 <= a < b < s.len(),
        forall|i: int| 0 <= i < s.len() - 1 ==> spec_order(#[trigger] s[i]) < spec_order(s[i + 1]),
    ensures
        spec_order(s[a]) < spec_order(s[b]),
    decreases b - a,
{
    if a + 1 == b {
        assert(spec_order(s[a]) < spec_order(s[a + 1]));
    } else {
        lemma_inc_pairwise(s, a, b - 1);
        assert(spec_order(s[b - 1]) < spec_order(s[b]));
    }
}

/// Every stage of a derived sequence except the last two is Crop, Resize
/// or Convert, in increasing order positions; the last two are Compress
/// then Save.
proof fn lemma_derived_pipeline_shape(req: ImageJobRequest, i: int)
    requires
        0 <= i < spec_derived_pipeline(req).len(),
    ensures
        spec_order(spec_derived_pipeline(req)[i]) >= i,
        i < spec_derived_pipeline(req).len() - 2 ==> spec_order(spec_derived_pipeline(req)[i])
            <= 2 && spec_order(spec_derived_pipeline(req)[i]) < spec_order(
            spec_derived_pipeline(req)[i + 1],
        ),
        i == spec_derived_pipeline(req).len() - 2 ==> spec_derived_pipeline(req)[i]
            == PipelineStageKind::Compress,
        i == spec_derived_pipeline(req).len() - 1 ==> spec_derived_pipeline(req)[i]
            == PipelineStageKind::Save,
{
}

/// A derived sequence holds Save exactly once.
proof fn lemma_derived_save_count(req: ImageJobRequest)
    ensures
        spec_save_count(spec_derived_pipeline(req)) == 1,
{
    let s = spec_derived_pipeline(req);
    assert forall|i: int| 0 <= i < s.len() - 1 implies #[trigger] s[i] != PipelineStageKind::Save by {
        lemma_derived_pipeline_shape(req, i);
    }
    lemma_derived_pipeline_shape(req, s.len() - 1);
    lemma_save_count_no_save_prefix(s);
}

/// In a sequence whose stages are all below Save except a single final
/// Save, the Save count is one.
proof fn lemma_save_count_no_save_prefix(s: Seq<PipelineStageKind>)
    requires
        s.len() >= 1,
        s.last() == PipelineStageKind::Save,
        forall|i: int| 0 <= i < s.len() - 1 ==> #[trigger] s[i] != PipelineStageKind::Save,
    ensures
        spec_save_count(s) == 1,
    decreases s.len(),
{
    lemma_save_count_none(s.drop_last());
}

/// A sequence without Save has Save count zero.
proof fn lemma_save_count_none(s: Seq<PipelineStageKind>)
    requires
        forall|i: int| 0 <= i < s.len() ==> #[trigger] s[i] != PipelineStageKind::Save,
    ensures
        spec_save_count(s) == 0,
    decreases s.len(),
{
    if s.len() > 0 {
        lemma_save_count_none(s.drop_last());
    }
}

} // verus!
