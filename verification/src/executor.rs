//! The per-file stage executor: a stepper that runs one file through its
//! ordered stage sequence.  Each step evaluates the cancellation flag,
//! performs the stage's in-memory work, records stage-local progress in
//! the store, and returns the progress events to emit.  The Save stage is
//! yielded to the caller, who performs the codec's encode-and-write and
//! feeds its progress milestones back in.

use vstd::prelude::*;

use crate::image_ops::{
    apply_crop_in_place, apply_resize_in_place, resolve_output_format, spec_resolve_output_format,
    spec_target_height, spec_target_width, spec_validate_crop_bounds, ImageHandle,
};
use crate::manager::{
    lemma_update_effect_compose_running, spec_update_file_effect, JobManager,
};
use crate::progress::{
    calculate_job_overall_progress, file_local_progress, save_stage_progress,
    spec_file_local_progress, spec_job_overall_progress, spec_save_stage_progress,
};
use crate::stage::{
    lemma_total_weight_bounds, lemma_total_weight_prefix, spec_stage_weight, spec_total_weight,
    stage_weight, total_stage_weight, PipelineStageKind,
};
use crate::types::{
    CompressMode, CropRegion, ImageJobProgressEvent, JobStatus, PipelineError, ProcessOptions,
};

verus! {

/// The in-flight execution of one file's pipeline.
pub struct FilePipeline {
    pub job_id: u64,
    pub file_index: usize,
    pub total_files: usize,
    pub input_path: String,
    pub output_path: String,
    pub mode: CompressMode,
    pub crop_region: Option<CropRegion>,
    pub options: Option<ProcessOptions>,
    pub stages: Vec<PipelineStageKind>,
    /// Index of the next stage to run.
    pub idx: usize,
    /// Weight of the stages that have reported 100%.
    pub completed_weight: u32,
    /// Sum of all configured stage weights, at least 1.
    pub total_weight: u32,
    /// The resolved output format.
    pub format: String,
    pub quality: Option<u8>,
    /// Whether a yielded Save stage is awaiting the codec.
    pub in_save: bool,
}

/// What one step of the pipeline asks of the caller.
pub enum StepYield {
    /// The stage ran to completion in memory; emit these events.
    Advanced(Vec<ImageJobProgressEvent>),
    /// The Save stage is reached: emit these events, ensure the output
    /// directory exists, then run the codec's encode-and-save, reporting
    /// its milestones through the save methods.
    NeedsSave(Vec<ImageJobProgressEvent>),
}

/// The progress event recorded for one stage-local progress report.
pub open spec fn spec_running_event(
    e: ImageJobProgressEvent,
    fp: FilePipeline,
    stage: PipelineStageKind,
    stage_bp: int,
) -> bool {
    let local = spec_file_local_progress(
        fp.completed_weight as int,
        spec_stage_weight(stage) as int,
        stage_bp,
        fp.total_weight as int,
    );
    &&& e.job_id == fp.job_id
    &&& e.file_index == fp.file_index
    &&& e.total_files == fp.total_files
    &&& e.input_path matches Some(p) && p@ == fp.input_path@
    &&& e.output_path is None
    &&& e.stage == Some(stage)
    &&& e.stage_progress == stage_bp
    &&& e.overall_progress == spec_job_overall_progress(
        fp.file_index as int,
        fp.total_files as int,
        local,
    )
    &&& e.status == JobStatus::Running
    &&& e.message is None
    &&& e.error is None
}

/// The store effect of one stage-local progress report: the file is
/// Running at the rescaled file-local value.
pub open spec fn spec_report_effect(
    pre: JobManager,
    post: JobManager,
    fp: FilePipeline,
    stage: PipelineStageKind,
    stage_bp: int,
) -> bool {
    spec_update_file_effect(
        pre,
        post,
        fp.job_id,
        fp.file_index as int,
        Some(JobStatus::Running),
        Some(
            spec_file_local_progress(
                fp.completed_weight as int,
                spec_stage_weight(stage) as int,
                stage_bp,
                fp.total_weight as int,
            ) as u32,
        ),
        None,
        None,
    )
}

impl FilePipeline {
    /// Well-formedness: the stage cursor and accumulated weight are
    /// consistent with the configured stages, within machine limits.
    pub open spec fn wf(&self) -> bool {
        &&& self.idx <= self.stages@.len()
        &&& self.stages@.len() <= 100
        &&& 1 <= self.total_weight <= 3500
        &&& self.total_weight as int == (if spec_total_weight(self.stages@) >= 1 {
            spec_total_weight(self.stages@)
        } else {
            1
        })
        &&& self.completed_weight as int == spec_total_weight(self.stages@.take(self.idx as int))
        &&& self.file_index < self.total_files
        &&& self.total_files < 0x8000_0000
        &&& (self.in_save ==> self.idx < self.stages@.len() && self.stages@[self.idx as int]
            == PipelineStageKind::Save)
    }

    /// Set up the execution of one file: resolve the total weight, the
    /// output format and the quality.
    pub fn new(
        job_id: u64,
        file_index: usize,
        total_files: usize,
        input_path: String,
        output_path: String,
        mode: CompressMode,
        crop_region: Option<CropRegion>,
        options: Option<ProcessOptions>,
        stages: Vec<PipelineStageKind>,
    ) -> (r: FilePipeline)
        requires
            file_index < total_files,
            total_files < 0x8000_0000,
            stages@.len() <= 100,
        ensures
            r.wf(),
            r.job_id == job_id,
            r.file_index == file_index,
            r.total_files == total_files,
            r.input_path@ == input_path@,
            r.output_path@ == output_path@,
            r.mode == mode,
            r.crop_region == crop_region,
            r.options == options,
            r.stages@ == stages@,
            r.idx == 0,
            r.completed_weight == 0,
            r.in_save == false,
            r.format@ == spec_resolve_output_format(input_path@, options),
            r.quality == (match options {
                Some(o) => o.quality,
                None => None,
            }),
    {
        let total = total_stage_weight(&stages);
        let tw = if total < 1 {
            1
        } else {
            total
        };
        let format = resolve_output_format(input_path.as_str(), &options);
        let quality = match &options {
            Some(o) => o.quality,
            None => None,
        };
        proof {
            lemma_total_weight_bounds(stages@);
            assert(stages@.take(0) =~= Seq::<PipelineStageKind>::empty());
        }
        FilePipeline {
            job_id,
            file_index,
            total_files,
            input_path,
            output_path,
            mode,
            crop_region,
            options,
            stages,
            idx: 0,
            completed_weight: 0,
            total_weight: tw,
            format,
            quality,
            in_save: false,
        }
    }

    /// Whether every stage has run.
    pub fn is_done(&self) -> (r: bool)
        ensures
            r == (self.idx == self.stages@.len()),
    {
        self.idx == self.stages.len()
    }

    /// Record one stage-local progress report in the store and build the
    /// event to emit.
    fn report_stage_progress(
        &self,
        manager: &mut JobManager,
        stage: PipelineStageKind,
        stage_bp: u32,
    ) -> (ev: ImageJobProgressEvent)
        requires
            self.wf(),
            old(manager).wf(),
            stage_bp <= 10000,
            self.completed_weight + spec_stage_weight(stage) <= self.total_weight,
        ensures
            final(manager).wf(),
            spec_report_effect(*old(manager), *final(manager), *self, stage, stage_bp as int),
            spec_running_event(ev, *self, stage, stage_bp as int),
    {
        let w = stage_weight(stage);
        let local = file_local_progress(self.completed_weight, w, stage_bp, self.total_weight);
        let overall = calculate_job_overall_progress(self.file_index, self.total_files, local);
        let _ = manager.update_file(
            self.job_id,
            self.file_index,
            Some(JobStatus::Running),
            Some(local),
            None,
            None,
        );
        ImageJobProgressEvent {
            job_id: self.job_id,
            file_index: self.file_index,
            total_files: self.total_files,
            input_path: Some(self.input_path.clone()),
            output_path: None,
            stage: Some(stage),
            stage_progress: stage_bp,
            overall_progress: overall,
            status: JobStatus::Running,
            message: None,
            error: None,
        }
    }

    /// Advance the cursor past the completed stage, crediting its full
    /// weight.
    fn advance_stage(&mut self)
        requires
            old(self).wf(),
            old(self).idx < old(self).stages@.len(),
        ensures
            final(self).wf(),
            final(self).idx == old(self).idx + 1,
            final(self).completed_weight == old(self).completed_weight + spec_stage_weight(
                old(self).stages@[old(self).idx as int],
            ),
            final(self).in_save == false,
            final(self).job_id == old(self).job_id,
            final(self).file_index == old(self).file_index,
            final(self).total_files == old(self).total_files,
            final(self).input_path == old(self).input_path,
            final(self).output_path == old(self).output_path,
            final(self).mode == old(self).mode,
            final(self).crop_region == old(self).crop_region,
            final(self).options == old(self).options,
            final(self).stages@ == old(self).stages@,
            final(self).total_weight == old(self).total_weight,
            final(self).format == old(self).format,
            final(self).quality == old(self).quality,
    {
        proof {
            self.lemma_current_stage_weight_fits();
            let i = self.idx as int;
            assert(self.stages@.take(i + 1).drop_last() =~= self.stages@.take(i));
            assert(self.stages@.take(i + 1).last() == self.stages@[i]);
        }
        let stage = self.stages[self.idx];
        let w = stage_weight(stage);
        self.completed_weight = self.completed_weight + w;
        self.idx = self.idx + 1;
        self.in_save = false;
    }

    /// The cursor's stage has the weight budget left for a report.
    proof fn lemma_current_stage_weight_fits(&self)
        requires
            self.wf(),
            self.idx < self.stages@.len(),
        ensures
            self.completed_weight + spec_stage_weight(self.stages@[self.idx as int])
                <= self.total_weight,
    {
        let i = self.idx as int;
        assert(self.stages@.take(i + 1).drop_last() =~= self.stages@.take(i));
        assert(self.stages@.take(i + 1).last() == self.stages@[i]);
        lemma_total_weight_prefix(self.stages@, i + 1);
        lemma_total_weight_bounds(self.stages@.take(i + 1));
    }
}

/// The clamped file-local progress of one report, as stored.
pub open spec fn spec_local_u32(fp: FilePipeline, stage: PipelineStageKind, bp: int) -> u32 {
    spec_file_local_progress(
        fp.completed_weight as int,
        spec_stage_weight(stage) as int,
        bp,
        fp.total_weight as int,
    ) as u32
}

impl FilePipeline {
    /// Run the stage at the cursor.  The cancellation flag is evaluated
    /// first; on true the file aborts with the distinguished cancellation
    /// outcome.  Crop, Resize, Convert and Compress run to completion in
    /// memory; Save is yielded to the caller.  Every completed stage,
    /// including the no-op ones, reports a final 100% so that the
    /// weighted aggregation converges.
    pub fn step(
        &mut self,
        manager: &mut JobManager,
        img: &mut ImageHandle,
        cancelled: bool,
    ) -> (r: Result<StepYield, PipelineError>)
        requires
            old(self).wf(),
            !old(self).in_save,
            old(self).idx < old(self).stages@.len(),
            old(manager).wf(),
        ensures
            final(self).wf(),
            final(manager).wf(),
            final(self).job_id == old(self).job_id,
            final(self).file_index == old(self).file_index,
            final(self).total_files == old(self).total_files,
            final(self).input_path == old(self).input_path,
            final(self).output_path == old(self).output_path,
            final(self).mode == old(self).mode,
            final(self).crop_region == old(self).crop_region,
            final(self).options == old(self).options,
            final(self).stages@ == old(self).stages@,
            final(self).total_weight == old(self).total_weight,
            final(self).quality == old(self).quality,
            cancelled ==> r == Err::<StepYield, PipelineError>(PipelineError::Cancelled)
                && *final(self) == *old(self) && *final(manager) == *old(manager) && *final(img)
                == *old(img),
            !cancelled ==> ({
                let stage = old(self).stages@[old(self).idx as int];
                let fp = *old(self);
                &&& (stage == PipelineStageKind::Crop && fp.crop_region is None ==> {
                    &&& r matches Ok(y) && y matches StepYield::Advanced(evs) && evs@.len() == 2
                        && spec_running_event(evs@[0], fp, stage, 0) && spec_running_event(
                        evs@[1],
                        fp,
                        stage,
                        10000,
                    )
                    &&& spec_report_effect(*old(manager), *final(manager), fp, stage, 10000)
                    &&& final(self).idx == fp.idx + 1
                    &&& final(self).completed_weight == fp.completed_weight + spec_stage_weight(
                        stage,
                    )
                    &&& final(self).in_save == false
                    &&& final(self).format == fp.format
                    &&& *final(img) == *old(img)
                })
                &&& (stage == PipelineStageKind::Crop ==> (fp.crop_region matches Some(reg) ==> {
                    match spec_validate_crop_bounds(old(img).width, old(img).height, reg) {
                        Ok(u) => {
                            &&& r matches Ok(y) && y matches StepYield::Advanced(evs)
                                && evs@.len() == 3 && spec_running_event(evs@[0], fp, stage, 0)
                                && spec_running_event(evs@[1], fp, stage, 2000)
                                && spec_running_event(evs@[2], fp, stage, 10000)
                            &&& spec_report_effect(*old(manager), *final(manager), fp, stage, 10000)
                            &&& final(self).idx == fp.idx + 1
                            &&& final(self).completed_weight == fp.completed_weight
                                + spec_stage_weight(stage)
                            &&& final(self).in_save == false
                            &&& final(self).format == fp.format
                            &&& final(img).width == reg.width && final(img).height == reg.height
                        },
                        Err(e) => {
                            &&& r == Err::<StepYield, PipelineError>(PipelineError::Crop(e))
                            &&& spec_report_effect(*old(manager), *final(manager), fp, stage, 2000)
                            &&& *final(self) == *old(self)
                            &&& *final(img) == *old(img)
                        },
                    }
                }))
                &&& (stage == PipelineStageKind::Resize ==> {
                    &&& r matches Ok(y) && y matches StepYield::Advanced(evs) && evs@.len() == 3
                        && spec_running_event(evs@[0], fp, stage, 0) && spec_running_event(
                        evs@[1],
                        fp,
                        stage,
                        2000,
                    ) && spec_running_event(evs@[2], fp, stage, 10000)
                    &&& spec_report_effect(*old(manager), *final(manager), fp, stage, 10000)
                    &&& final(self).idx == fp.idx + 1
                    &&& final(self).completed_weight == fp.completed_weight + spec_stage_weight(
                        stage,
                    )
                    &&& final(self).in_save == false
                    &&& final(self).format == fp.format
                    &&& ((spec_target_width(old(img).width, fp.options) == old(img).width
                        && spec_target_height(old(img).height, fp.options) == old(img).height)
                        ==> (final(img).width == old(img).width && final(img).height == old(
                        img,
                    ).height))
                })
                &&& (stage == PipelineStageKind::Convert ==> {
                    &&& r matches Ok(y) && y matches StepYield::Advanced(evs) && evs@.len() == 3
                        && spec_running_event(evs@[0], fp, stage, 0) && spec_running_event(
                        evs@[1],
                        fp,
                        stage,
                        3000,
                    ) && spec_running_event(evs@[2], fp, stage, 10000)
                    &&& spec_report_effect(*old(manager), *final(manager), fp, stage, 10000)
                    &&& final(self).idx == fp.idx + 1
                    &&& final(self).completed_weight == fp.completed_weight + spec_stage_weight(
                        stage,
                    )
                    &&& final(self).in_save == false
                    &&& final(self).format@ == spec_resolve_output_format(
                        fp.input_path@,
                        fp.options,
                    )
                    &&& *final(img) == *old(img)
                })
                &&& (stage == PipelineStageKind::Compress ==> {
                    &&& r matches Ok(y) && y matches StepYield::Advanced(evs) && evs@.len() == 2
                        && spec_running_event(evs@[0], fp, stage, 0) && spec_running_event(
                        evs@[1],
                        fp,
                        stage,
                        10000,
                    )
                    &&& spec_report_effect(*old(manager), *final(manager), fp, stage, 10000)
                    &&& final(self).idx == fp.idx + 1
                    &&& final(self).completed_weight == fp.completed_weight + spec_stage_weight(
                        stage,
                    )
                    &&& final(self).in_save == false
                    &&& final(self).format == fp.format
                    &&& *final(img) == *old(img)
                })
                &&& (stage == PipelineStageKind::Save ==> {
                    &&& r matches Ok(y) && y matches StepYield::NeedsSave(evs) && evs@.len() == 1
                        && spec_running_event(evs@[0], fp, stage, 0)
                    &&& spec_report_effect(*old(manager), *final(manager), fp, stage, 0)
                    &&& final(self).idx == fp.idx
                    &&& final(self).completed_weight == fp.completed_weight
                    &&& final(self).in_save == true
                    &&& final(self).format == fp.format
                    &&& *final(img) == *old(img)
                })
            }),
    {
        if cancelled {
            return Err(PipelineError::Cancelled);
        }
        let stage = self.stages[self.idx];
        proof {
            self.lemma_current_stage_weight_fits();
        }
        let ghost m0 = *manager;
        let ev0 = self.report_stage_progress(manager, stage, 0);
        match stage {
            PipelineStageKind::Crop => {
                match self.crop_region {
                    Some(reg) => {
                        let ghost m1 = *manager;
                        let ev1 = self.report_stage_progress(manager, stage, 2000);
                        proof {
                            lemma_update_effect_compose_running(
                                m0,
                                m1,
                                *manager,
                                self.job_id,
                                self.file_index as int,
                                spec_local_u32(*self, stage, 0),
                                spec_local_u32(*self, stage, 2000),
                            );
                        }
                        match apply_crop_in_place(img, &reg) {
                            Ok(()) => {
                                let ghost m2 = *manager;
                                let ev2 = self.report_stage_progress(manager, stage, 10000);
                                proof {
                                    lemma_update_effect_compose_running(
                                        m0,
                                        m2,
                                        *manager,
                                        self.job_id,
                                        self.file_index as int,
                                        spec_local_u32(*self, stage, 2000),
                                        spec_local_u32(*self, stage, 10000),
                                    );
                                }
                                self.advance_stage();
                                let mut evs: Vec<ImageJobProgressEvent> = Vec::new();
                                evs.push(ev0);
                                evs.push(ev1);
                                evs.push(ev2);
                                Ok(StepYield::Advanced(evs))
                            },
                            Err(e) => Err(PipelineError::Crop(e)),
                        }
                    },
                    None => {
                        let ghost m1 = *manager;
                        let ev1 = self.report_stage_progress(manager, stage, 10000);
                        proof {
                            lemma_update_effect_compose_running(
                                m0,
                                m1,
                                *manager,
                                self.job_id,
                                self.file_index as int,
                                spec_local_u32(*self, stage, 0),
                                spec_local_u32(*self, stage, 10000),
                            );
                        }
                        self.advance_stage();
                        let mut evs: Vec<ImageJobProgressEvent> = Vec::new();
                        evs.push(ev0);
                        evs.push(ev1);
                        Ok(StepYield::Advanced(evs))
                    },
                }
            },
            PipelineStageKind::Resize => {
                let ghost m1 = *manager;
                let ev1 = self.report_stage_progress(manager, stage, 2000);
                proof {
                    lemma_update_effect_compose_running(
                        m0,
                        m1,
                        *manager,
                        self.job_id,
                        self.file_index as int,
                        spec_local_u32(*self, stage, 0),
                        spec_local_u32(*self, stage, 2000),
                    );
                }
                apply_resize_in_place(img, &self.options);
                let ghost m2 = *manager;
                let ev2 = self.report_stage_progress(manager, stage, 10000);
                proof {
                    lemma_update_effect_compose_running(
                        m0,
                        m2,
                        *manager,
                        self.job_id,
                        self.file_index as int,
                        spec_local_u32(*self, stage, 2000),
                        spec_local_u32(*self, stage, 10000),
                    );
                }
                self.advance_stage();
                let mut evs: Vec<ImageJobProgressEvent> = Vec::new();
                evs.push(ev0);
                evs.push(ev1);
                evs.push(ev2);
                Ok(StepYield::Advanced(evs))
            },
            PipelineStageKind::Convert => {
                let ghost m1 = *manager;
                let ev1 = self.report_stage_progress(manager, stage, 3000);
                proof {
                    lemma_update_effect_compose_running(
                        m0,
                        m1,
                        *manager,
                        self.job_id,
                        self.file_index as int,
                        spec_local_u32(*self, stage, 0),
                        spec_local_u32(*self, stage, 3000),
                    );
                }
                let f = resolve_output_format(self.input_path.as_str(), &self.options);
                self.format = f;
                let ghost m2 = *manager;
                let ev2 = self.report_stage_progress(manager, stage, 10000);
                proof {
                    lemma_update_effect_compose_running(
                        m0,
                        m2,
                        *manager,
                        self.job_id,
                        self.file_index as int,
                        spec_local_u32(*self, stage, 3000),
                        spec_local_u32(*self, stage, 10000),
                    );
                }
                self.advance_stage();
                let mut evs: Vec<ImageJobProgressEvent> = Vec::new();
                evs.push(ev0);
                evs.push(ev1);
                evs.push(ev2);
                Ok(StepYield::Advanced(evs))
            },
            PipelineStageKind::Compress => {
                let ghost m1 = *manager;
                let ev1 = self.report_stage_progress(manager, stage, 10000);
                proof {
                    lemma_update_effect_compose_running(
                        m0,
                        m1,
                        *manager,
                        self.job_id,
                        self.file_index as int,
                        spec_local_u32(*self, stage, 0),
                        spec_local_u32(*self, stage, 10000),
                    );
                }
                self.advance_stage();
                let mut evs: Vec<ImageJobProgressEvent> = Vec::new();
                evs.push(ev0);
                evs.push(ev1);
                Ok(StepYield::Advanced(evs))
            },
            PipelineStageKind::Save => {
                self.in_save = true;
                let mut evs: Vec<ImageJobProgressEvent> = Vec::new();
                evs.push(ev0);
                Ok(StepYield::NeedsSave(evs))
            },
        }
    }

    /// Record the save stage's directory step: the first 15% of the
    /// stage.
    pub fn save_started(&self, manager: &mut JobManager) -> (ev: ImageJobProgressEvent)
        requires
            self.wf(),
            self.in_save,
            old(manager).wf(),
        ensures
            final(manager).wf(),
            spec_report_effect(*old(manager), *final(manager), *self, PipelineStageKind::Save, 1500),
            spec_running_event(ev, *self, PipelineStageKind::Save, 1500),
    {
        proof {
            self.lemma_current_stage_weight_fits();
        }
        self.report_stage_progress(manager, PipelineStageKind::Save, 1500)
    }

    /// Record one codec progress milestone, rescaled into the save
    /// stage's remaining 85%.
    pub fn save_milestone(&self, manager: &mut JobManager, codec_progress: u32) -> (ev:
        ImageJobProgressEvent)
        requires
            self.wf(),
            self.in_save,
            old(manager).wf(),
        ensures
            final(manager).wf(),
            spec_report_effect(
                *old(manager),
                *final(manager),
                *self,
                PipelineStageKind::Save,
                spec_save_stage_progress(codec_progress as int),
            ),
            spec_running_event(
                ev,
                *self,
                PipelineStageKind::Save,
                spec_save_stage_progress(codec_progress as int),
            ),
    {
        proof {
            self.lemma_current_stage_weight_fits();
        }
        let bp = save_stage_progress(codec_progress);
        self.report_stage_progress(manager, PipelineStageKind::Save, bp)
    }

    /// Record the save stage's completion and advance past it.
    pub fn save_finished(&mut self, manager: &mut JobManager) -> (ev: ImageJobProgressEvent)
        requires
            old(self).wf(),
            old(self).in_save,
            old(manager).wf(),
        ensures
            final(self).wf(),
            final(manager).wf(),
            spec_report_effect(
                *old(manager),
                *final(manager),
                *old(self),
                PipelineStageKind::Save,
                10000,
            ),
            spec_running_event(ev, *old(self), PipelineStageKind::Save, 10000),
            final(self).idx == old(self).idx + 1,
            final(self).completed_weight == old(self).completed_weight + spec_stage_weight(
                PipelineStageKind::Save,
            ),
            final(self).in_save == false,
            final(self).job_id == old(self).job_id,
            final(self).file_index == old(self).file_index,
            final(self).total_files == old(self).total_files,
            final(self).input_path == old(self).input_path,
            final(self).output_path == old(self).output_path,
            final(self).mode == old(self).mode,
            final(self).crop_region == old(self).crop_region,
            final(self).options == old(self).options,
            final(self).stages@ == old(self).stages@,
            final(self).total_weight == old(self).total_weight,
            final(self).format == old(self).format,
            final(self).quality == old(self).quality,
    {
        proof {
            self.lemma_current_stage_weight_fits();
        }
        let ev = self.report_stage_progress(manager, PipelineStageKind::Save, 10000);
        self.advance_stage();
        ev
    }
}

/// The cancellation check before any work on a file: on a set flag the
/// file aborts with the distinguished cancellation outcome.
pub fn check_cancelled(cancelled: bool) -> (r: Result<(), PipelineError>)
    ensures
        (r is Ok) == !cancelled,
        cancelled ==> r == Err::<(), PipelineError>(PipelineError::Cancelled),
{
    if cancelled {
        Err(PipelineError::Cancelled)
    } else {
        Ok(())
    }
}

} // verus!
