//! Weighted progress aggregation, in exact integer arithmetic.  All
//! progress values are hundredths of a percent (0 ..= 10_000): a stage's
//! local progress is rescaled by its weight into the file-local value,
//! and the file-local value combines with the file index into the
//! job-level value.

use vstd::prelude::*;

use vstd::arithmetic::div_mod::{lemma_div_is_ordered, lemma_div_multiples_vanish};

verus! {

/// The file-local progress while one stage is active: the weight already
/// completed plus the active stage's weighted share, over the total
/// weight.
pub open spec fn spec_file_local_progress(
    completed_weight: int,
    weight: int,
    stage_progress: int,
    total_weight: int,
) -> int {
    (completed_weight * 10000 + weight * stage_progress) / total_weight
}

/// Rescale one stage's local progress into the file-local value.
pub fn file_local_progress(
    completed_weight: u32,
    weight: u32,
    stage_progress: u32,
    total_weight: u32,
) -> (r: u32)
    requires
        total_weight >= 1,
        completed_weight + weight <= total_weight,
        total_weight <= 3500,
        stage_progress <= 10000,
    ensures
        r == spec_file_local_progress(
            completed_weight as int,
            weight as int,
            stage_progress as int,
            total_weight as int,
        ),
        r <= 10000,
{
    proof {
        assert((weight as int) * (stage_progress as int) <= 35_000_000) by (nonlinear_arith)
            requires
                weight as int <= 3500,
                stage_progress as int <= 10000,
                0 <= weight as int,
                0 <= stage_progress as int,
        ;
    }
    let num: u64 = (completed_weight as u64) * 10000 + (weight as u64) * (stage_progress as u64);
    let q: u64 = num / (total_weight as u64);
    proof {
        let cw = completed_weight as int;
        let w = weight as int;
        let sp = stage_progress as int;
        let tw = total_weight as int;
        assert(cw * 10000 + w * sp <= tw * 10000) by (nonlinear_arith)
            requires
                cw + w <= tw,
                sp <= 10000,
                0 <= cw,
                0 <= w,
                0 <= sp,
        ;
        lemma_div_is_ordered(cw * 10000 + w * sp, tw * 10000, tw);
        lemma_div_multiples_vanish(10000, tw);
    }
    q as u32
}

/// The job-level progress while one file is active: the finished files
/// plus the active file's fraction, over the total, clamped to 100%.
pub open spec fn spec_job_overall_progress(
    file_index: int,
    total_files: int,
    file_local: int,
) -> int {
    (file_index * 10000 + (if file_local > 10000 {
        10000int
    } else {
        file_local
    })) / total_files
}

/// Combine the active file's index and its file-local progress into the
/// job-level progress.
pub fn calculate_job_overall_progress(
    file_index: usize,
    total_files: usize,
    file_local: u32,
) -> (r: u32)
    requires
        file_index < total_files,
        total_files < 0x8000_0000,
    ensures
        r == spec_job_overall_progress(file_index as int, total_files as int, file_local as int),
        r <= 10000,
{
    let clamped: u64 = if file_local > 10000 {
        10000
    } else {
        file_local as u64
    };
    let num: u64 = (file_index as u64) * 10000 + clamped;
    let q: u64 = num / (total_files as u64);
    proof {
        let fi = file_index as int;
        let tf = total_files as int;
        let fl = clamped as int;
        assert(fi * 10000 + fl <= tf * 10000) by (nonlinear_arith)
            requires
                fi < tf,
                fl <= 10000,
                0 <= fi,
                0 <= fl,
        ;
        lemma_div_is_ordered(fi * 10000 + fl, tf * 10000, tf);
        lemma_div_multiples_vanish(10000, tf);
    }
    q as u32
}

/// The job-level progress at the start of a file: finished files over the
/// total.
pub open spec fn spec_file_base_progress(file_index: int, total_files: int) -> int {
    file_index * 10000 / total_files
}

/// Job-level progress when the file at `file_index` has not contributed
/// anything yet.
pub fn calculate_file_base_progress(file_index: usize, total_files: usize) -> (r: u32)
    requires
        file_index < total_files,
        total_files < 0x8000_0000,
    ensures
        r == spec_file_base_progress(file_index as int, total_files as int),
        r <= 10000,
{
    let num: u64 = (file_index as u64) * 10000;
    let q: u64 = num / (total_files as u64);
    proof {
        let fi = file_index as int;
        let tf = total_files as int;
        assert(fi * 10000 <= tf * 10000) by (nonlinear_arith)
            requires
                fi < tf,
                0 <= fi,
        ;
        lemma_div_is_ordered(fi * 10000, tf * 10000, tf);
        lemma_div_multiples_vanish(10000, tf);
    }
    q as u32
}

/// The job-level progress once a file is done: finished files including
/// this one, over the total.
pub open spec fn spec_file_done_progress(file_index: int, total_files: int) -> int {
    (file_index + 1) * 10000 / total_files
}

/// Job-level progress when the file at `file_index` has fully completed.
pub fn calculate_file_done_progress(file_index: usize, total_files: usize) -> (r: u32)
    requires
        file_index < total_files,
        total_files < 0x8000_0000,
    ensures
        r == spec_file_done_progress(file_index as int, total_files as int),
        r <= 10000,
{
    let num: u64 = ((file_index as u64) + 1) * 10000;
    let q: u64 = num / (total_files as u64);
    proof {
        let fi = file_index as int;
        let tf = total_files as int;
        assert((fi + 1) * 10000 <= tf * 10000) by (nonlinear_arith)
            requires
                fi < tf,
                0 <= fi,
        ;
        lemma_div_is_ordered((fi + 1) * 10000, tf * 10000, tf);
        lemma_div_multiples_vanish(10000, tf);
    }
    q as u32
}

/// The save stage's local progress for a codec progress report: the
/// directory step holds the first 15%, the codec's own progress is
/// rescaled into the remaining 85%.
pub open spec fn spec_save_stage_progress(codec_progress: int) -> int {
    1500 + 85 * (if codec_progress > 10000 {
        10000int
    } else {
        codec_progress
    }) / 100
}

/// Rescale a codec progress report into the save stage's local range.
pub fn save_stage_progress(codec_progress: u32) -> (r: u32)
    ensures
        r == spec_save_stage_progress(codec_progress as int),
        1500 <= r <= 10000,
{
    let clamped: u64 = if codec_progress > 10000 {
        10000
    } else {
        codec_progress as u64
    };
    let q: u64 = 1500 + 85 * clamped / 100;
    proof {
        let cp = clamped as int;
        lemma_div_is_ordered(85 * cp, 85 * 10000int, 100int);
    }
    q as u32
}

} // verus!
