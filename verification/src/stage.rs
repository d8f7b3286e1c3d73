//! The fixed stage model: the five pipeline stages, their total order and
//! their fixed progress weights (summing to 100).

use vstd::prelude::*;

verus! {

/// One discrete pipeline step, in its fixed order.
#[derive(Debug, Clone, Copy, PartialEq, Eq, Structural, Hash)]
pub enum PipelineStageKind {
    Crop,
    Resize,
    Convert,
    Compress,
    Save,
}

/// The fixed position of a stage in the pipeline's total order.
pub open spec fn spec_order(stage: PipelineStageKind) -> u8 {
    match stage {
        PipelineStageKind::Crop => 0,
        PipelineStageKind::Resize => 1,
        PipelineStageKind::Convert => 2,
        PipelineStageKind::Compress => 3,
        PipelineStageKind::Save => 4,
    }
}

/// The fixed progress weight of a stage; the five weights sum to 100.
pub open spec fn spec_stage_weight(stage: PipelineStageKind) -> u32 {
    match stage {
        PipelineStageKind::Crop => 15,
        PipelineStageKind::Resize => 20,
        PipelineStageKind::Convert => 15,
        PipelineStageKind::Compress => 35,
        PipelineStageKind::Save => 15,
    }
}

impl PipelineStageKind {
    /// Position of this stage in the fixed total order (0 ..= 4).
    pub fn order(self) -> (r: u8)
        ensures
            r == spec_order(self),
    {
        match self {
            PipelineStageKind::Crop => 0,
            PipelineStageKind::Resize => 1,
            PipelineStageKind::Convert => 2,
            PipelineStageKind::Compress => 3,
            PipelineStageKind::Save => 4,
        }
    }
}

/// Fixed progress weight of one stage.
pub fn stage_weight(stage: PipelineStageKind) -> (r: u32)
    ensures
        r == spec_stage_weight(stage),
{
    match stage {
        PipelineStageKind::Crop => 15,
        PipelineStageKind::Resize => 20,
        PipelineStageKind::Convert => 15,
        PipelineStageKind::Compress => 35,
        PipelineStageKind::Save => 15,
    }
}

/// Sum of the weights of a stage sequence.
pub open spec fn spec_total_weight(stages: Seq<PipelineStageKind>) -> int
    decreases stages.len(),
{
    if stages.len() == 0 {
        0
    } else {
        spec_total_weight(stages.drop_last()) + spec_stage_weight(stages.last())
    }
}

/// Every stage weight lies in 15 ..= 35.
pub proof fn lemma_stage_weight_bounds(stage: PipelineStageKind)
    ensures
        15 <= spec_stage_weight(stage) <= 35,
{
}

/// The total weight of a sequence is bounded by 35 per stage.
pub proof fn lemma_total_weight_bounds(stages: Seq<PipelineStageKind>)
    ensures
        0 <= spec_total_weight(stages) <= 35 * stages.len(),
    decreases stages.len(),
{
    if stages.len() > 0 {
        lemma_total_weight_bounds(stages.drop_last());
    }
}

/// A copy of a stage list.
pub fn clone_stage_list(stages: &Vec<PipelineStageKind>) -> (r: Vec<PipelineStageKind>)
    ensures
        r@ == stages@,
{
    let n = stages.len();
    let mut out: Vec<PipelineStageKind> = Vec::new();
    let mut i: usize = 0;
    while i < n
        invariant
            n == stages@.len(),
            i <= n,
            out@.len() == i,
            forall|j: int| 0 <= j < i ==> #[trigger] out@[j] == stages@[j],
        decreases n - i,
    {
        out.push(stages[i]);
        i = i + 1;
    }
    proof {
        assert(out@ =~= stages@);
    }
    out
}

/// The weight of a prefix never exceeds the weight of the whole.
pub proof fn lemma_total_weight_prefix(stages: Seq<PipelineStageKind>, i: int)
    requires
        0 <= i <= stages.len(),
    ensures
        spec_total_weight(stages.take(i)) <= spec_total_weight(stages),
    decreases stages.len(),
{
    if i == stages.len() {
        assert(stages.take(i) =~= stages);
    } else {
        assert(stages.drop_last().take(i) =~= stages.take(i));
        lemma_total_weight_prefix(stages.drop_last(), i);
    }
}

/// Sum of the weights of a stage sequence, saturating at `u32::MAX`
/// (never reached for any sequence short enough to index by `usize`).
pub fn total_stage_weight(stages: &Vec<PipelineStageKind>) -> (r: u32)
    requires
        stages@.len() <= 100,
    ensures
        r == spec_total_weight(stages@),
{
    let mut sum: u32 = 0;
    let mut i: usize = 0;
    while i < stages.len()
        invariant
            i <= stages@.len(),
            stages@.len() <= 100,
            sum == spec_total_weight(stages@.take(i as int)),
            sum <= 35 * i,
        decreases stages@.len() - i,
    {
        proof {
            lemma_total_weight_bounds(stages@.take(i as int));
            assert(stages@.take(i + 1).drop_last() =~= stages@.take(i as int));
            assert(stages@.take(i + 1).last() == stages@[i as int]);
        }
        sum = sum + stage_weight(stages[i]);
        i = i + 1;
    }
    proof {
        assert(stages@.take(stages@.len() as int) =~= stages@);
    }
    sum
}

} // verus!
