use cruncher::progress::{
    calculate_file_base_progress, calculate_file_done_progress, calculate_job_overall_progress,
    file_local_progress, save_stage_progress,
};

#[test]
fn weighted_file_progress_before_save_starts() {
    // Stages Resize (20), Compress (35), Save (15): total 70.  With
    // Resize and Compress fully complete and Save not started, the file
    // is at (20 + 35) / 70 = 78.57%.
    let local = file_local_progress(55, 15, 0, 70);
    assert_eq!(local, 7857);
}

#[test]
fn file_progress_reaches_full_when_all_weights_complete() {
    assert_eq!(file_local_progress(55, 15, 10000, 70), 10000);
}

#[test]
fn file_progress_scales_the_active_stage() {
    // Half of a weight-35 stage over total 50: (0 + 35 * 0.5) / 50 = 35%.
    assert_eq!(file_local_progress(0, 35, 5000, 50), 3500);
}

#[test]
fn job_overall_combines_index_and_file_fraction() {
    // second file of four at 50%: (1 + 0.5) / 4 = 37.5%
    assert_eq!(calculate_job_overall_progress(1, 4, 5000), 3750);
}

#[test]
fn job_overall_clamps_excess_stage_progress() {
    assert_eq!(calculate_job_overall_progress(0, 1, 20000), 10000);
}

#[test]
fn base_and_done_progress_bracket_a_file() {
    assert_eq!(calculate_file_base_progress(2, 4), 5000);
    assert_eq!(calculate_file_done_progress(2, 4), 7500);
    assert_eq!(calculate_file_base_progress(0, 3), 0);
    assert_eq!(calculate_file_done_progress(2, 3), 10000);
}

#[test]
fn save_stage_rescales_codec_progress() {
    assert_eq!(save_stage_progress(0), 1500);
    assert_eq!(save_stage_progress(5000), 5750);
    assert_eq!(save_stage_progress(10000), 10000);
    // out-of-range codec reports are clamped
    assert_eq!(save_stage_progress(60000), 10000);
}
