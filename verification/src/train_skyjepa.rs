//! Training of the SkyJEPA latent model and physics prober: run settings, resumable progress,
//! and the decisions of the training loop.

use crate::batching::{batch_count, batches_for, min_of};
use crate::order::Score;
use crate::paths::{is_same_path, same_path, stored, stored_dir};
use crate::text::same;
use vstd::arithmetic::div_mod::{
    lemma_fundamental_div_mod, lemma_fundamental_div_mod_converse, lemma_mod_bound,
};
use vstd::arithmetic::mul::lemma_mul_is_commutative;
use vstd::prelude::*;

verus! {

/// Added to the run's seed for the prober's epoch shuffles.
pub const PROBER_SHUFFLE_OFFSET: u64 = 0x0053_4b59_4a45_5041;

/// Combined with the run's seed to seed the device for the prober.
pub const PROBER_DEVICE_MASK: u64 = 0x5052_4f42_4552_5f53;

/// The version of the progress format.
pub const PROGRESS_FORMAT: u32 = 2;

/// What to train.
#[derive(Clone, Copy, PartialEq, Eq, Structural, Debug)]
pub enum TrainingStage {
    Both,
    Latent,
    Prober,
}

/// The settings that decide how a stage runs.
#[derive(Clone, Copy, Debug)]
pub struct StageSettings {
    pub stage: TrainingStage,
    pub seed: u64,
    pub rows: usize,
    pub batch_size: usize,
    pub epochs: usize,
    pub max_steps: Option<usize>,
    pub log_every: usize,
    pub save_every: usize,
}

/// Why a stage cannot run.
#[derive(Clone, Copy, PartialEq, Eq, Structural, Debug)]
pub enum StageError {
    /// The number of steps of all epochs exceeds the machine's word size.
    StepsOverflow,
    /// The saved step lies behind the requested target.
    PastTarget { step: usize, target: usize },
}

/// The steps of a run: all epochs, or fewer where a limit is set.
pub open spec fn requested(epochs: int, batches_per_epoch: int, max_steps: Option<usize>) -> int {
    match max_steps {
        Some(limit) => min_of(limit as int, epochs * batches_per_epoch),
        None => epochs * batches_per_epoch,
    }
}

/// Computes the absolute step target of a run.
pub fn requested_steps(
    epochs: usize,
    batches_per_epoch: usize,
    max_steps: Option<usize>,
) -> (result: Result<usize, StageError>)
    ensures
        match result {
            Ok(steps) => epochs * batches_per_epoch <= usize::MAX && steps == requested(
                epochs as int,
                batches_per_epoch as int,
                max_steps,
            ),
            Err(error) => epochs * batches_per_epoch > usize::MAX && error
                == StageError::StepsOverflow,
        },
{
    match epochs.checked_mul(batches_per_epoch) {
        None => Err(StageError::StepsOverflow),
        Some(epoch_steps) => match max_steps {
            Some(limit) if limit < epoch_steps => Ok(limit),
            _ => Ok(epoch_steps),
        },
    }
}

/// A run takes all steps of its epochs, or as many as its limit allows where that is fewer.
pub proof fn law_runs_end_with_their_epochs_or_their_limit(
    epochs: int,
    batches_per_epoch: int,
    max_steps: Option<usize>,
)
    ensures
        requested(epochs, batches_per_epoch, max_steps) <= epochs * batches_per_epoch,
        max_steps is None ==> requested(epochs, batches_per_epoch, max_steps) == epochs
            * batches_per_epoch,
        max_steps matches Some(limit) ==> {
            let steps = requested(epochs, batches_per_epoch, max_steps);
            steps <= limit && (steps == limit || steps == epochs * batches_per_epoch)
        },
{
}

/// A run can be taken up at any step up to its target, the target itself included, and a fresh one
/// begins wherever its steps can be counted.
pub proof fn law_runs_are_resumed_up_to_their_target(settings: StageSettings, step: int)
    requires
        settings.epochs * settings.batches() <= usize::MAX,
    ensures
        settings.can_resume_at(settings.target()),
        step > settings.target() ==> !settings.can_resume_at(step),
        settings.can_resume_at(step) ==> settings.can_resume_at(step - 1),
{
}

impl StageSettings {
    /// The settings that the argument checks let through.
    pub open spec fn well_formed(self) -> bool {
        &&& self.rows > 0
        &&& self.batch_size > 1
        &&& self.log_every > 0
    }

    /// Batches in one pass over the rows.
    pub open spec fn batches(self) -> int {
        batches_for(self.rows as int, self.batch_size as int)
    }

    /// The absolute step target.
    pub open spec fn target(self) -> int {
        requested(self.epochs as int, self.batches(), self.max_steps)
    }

    /// A run of these settings can be taken up at step `step`.
    pub open spec fn can_resume_at(self, step: int) -> bool {
        self.epochs * self.batches() <= usize::MAX && step <= self.target()
    }

    /// The epoch that step `step` belongs to.
    pub open spec fn epoch_of(self, step: int) -> int {
        step / self.batches()
    }

    /// The batch of its epoch that step `step` trains on.
    pub open spec fn batch_index(self, step: int) -> int {
        step % self.batches()
    }

    /// The first row of step `step` in its epoch's order.
    pub open spec fn first_row(self, step: int) -> int {
        self.batch_index(step) * self.batch_size
    }

    /// The row behind the last one of step `step` in its epoch's order.
    pub open spec fn end_row(self, step: int) -> int {
        min_of(self.first_row(step) + self.batch_size, self.rows as int)
    }

    /// The seed from which the epochs' shuffles of this stage derive.
    pub open spec fn shuffle_seed(self) -> u64 {
        if self.stage == TrainingStage::Prober {
            self.seed.wrapping_add(PROBER_SHUFFLE_OFFSET)
        } else {
            self.seed
        }
    }

    /// The latent stage passes over a batch of fewer than two rows.
    pub open spec fn passes_over(self, step: int) -> bool {
        self.stage != TrainingStage::Prober && self.end_row(step) - self.first_row(step) < 2
    }

    /// What step `step` trains on, seen from a run whose rows are in the order of
    /// `cached_epoch`.
    pub open spec fn planned(self, step: int, cached_epoch: Option<usize>) -> StepPlan {
        StepPlan {
            step_index: step as usize,
            epoch: self.epoch_of(step) as usize,
            batch_index: self.batch_index(step) as usize,
            shuffle: if cached_epoch == Some(self.epoch_of(step) as usize) {
                None
            } else {
                Some((self.shuffle_seed(), self.epoch_of(step) as usize))
            },
            first_row: self.first_row(step) as usize,
            end_row: self.end_row(step) as usize,
            passed_over: self.passes_over(step),
        }
    }

    /// Step `step` is the last of its epoch.
    pub open spec fn ends_epoch(self, step: int) -> bool {
        self.batch_index(step) + 1 == self.batches()
    }

    /// What follows the training of step `step`.
    pub open spec fn marked(self, step: int) -> StepMarks {
        StepMarks {
            log: step == 0 || (step + 1) % (self.log_every as int) == 0,
            validate: self.ends_epoch(step) || step + 1 == self.target(),
            save: self.ends_epoch(step) || step + 1 == self.target() || (self.save_every > 0 && (
            step + 1) % (self.save_every as int) == 0),
        }
    }
}

/// One step of a stage.
#[derive(Clone, Copy, Debug)]
pub struct StepPlan {
    pub step_index: usize,
    pub epoch: usize,
    pub batch_index: usize,
    /// The seed and epoch by which to reorder the rows first, where their order changes.
    pub shuffle: Option<(u64, usize)>,
    pub first_row: usize,
    pub end_row: usize,
    /// The step trains nothing and leaves the progress as it is.
    pub passed_over: bool,
}

/// What follows a trained step.
#[derive(Clone, Copy, PartialEq, Eq, Structural, Debug)]
pub struct StepMarks {
    pub log: bool,
    pub validate: bool,
    pub save: bool,
}

/// The saved state of a stage.
#[derive(Debug)]
pub struct StageProgress {
    pub format_version: u32,
    pub stage: TrainingStage,
    pub dataset_dir: String,
    pub batch_size: usize,
    pub epochs: usize,
    pub max_steps: Option<usize>,
    pub seed: u64,
    pub batches_per_epoch: usize,
    pub global_step: usize,
    pub best_validation: Option<Score>,
    pub best_epoch: Option<usize>,
    pub best_step: Option<usize>,
    pub completed_requested_steps: bool,
    pub updated_at_unix: u64,
}

/// A validation of a run: its result, the number of the epoch that it ends, and the step that it
/// follows.
#[derive(Clone, Copy, Debug)]
pub struct Validation {
    pub result: Score,
    pub epoch: usize,
    pub step: usize,
}

/// The best validation of a run, where there was one.
#[derive(Clone, Copy, Debug)]
pub struct BestRecord {
    pub validation: Option<Score>,
    pub epoch: Option<usize>,
    pub step: Option<usize>,
}

impl BestRecord {
    /// The record of a run without a validation.
    pub open spec fn blank() -> BestRecord {
        BestRecord { validation: None, epoch: None, step: None }
    }

    /// The record of a run whose best validation is that one.
    pub open spec fn of(found: Validation) -> BestRecord {
        BestRecord {
            validation: Some(found.result),
            epoch: Some(found.epoch),
            step: Some(found.step),
        }
    }

    /// The result improves on the record: it is the first, or it lies below the best.
    pub open spec fn improved_by(self, result: Score) -> bool {
        match self.validation {
            None => true,
            Some(best) => result.below(best),
        }
    }

    /// The record after one more validation.
    pub open spec fn after(self, found: Validation) -> BestRecord {
        if self.improved_by(found.result) {
            BestRecord::of(found)
        } else {
            self
        }
    }

    /// The record after a series of validations.
    pub open spec fn after_all(self, series: Seq<Validation>) -> BestRecord
        decreases series.len(),
    {
        if series.len() == 0 {
            self
        } else {
            self.after_all(series.drop_last()).after(series.last())
        }
    }
}

impl StageProgress {
    /// The progress belongs to a run of `settings` on the data set at `dataset_dir`.
    pub open spec fn belongs_to(self, settings: StageSettings, dataset_dir: Seq<char>) -> bool {
        &&& self.stage == settings.stage
        &&& same_path(self.dataset_dir@, dataset_dir)
        &&& self.batch_size == settings.batch_size
        &&& self.epochs == settings.epochs
        &&& self.max_steps == settings.max_steps
        &&& self.seed == settings.seed
        &&& self.batches_per_epoch == settings.batches()
    }

    /// The progress of a run that has not trained anything.
    pub open spec fn is_fresh(self, now: u64) -> bool {
        &&& self.format_version == PROGRESS_FORMAT
        &&& self.global_step == 0
        &&& self.best_validation is None
        &&& self.best_epoch is None
        &&& self.best_step is None
        &&& !self.completed_requested_steps
        &&& self.updated_at_unix == now
    }

    /// The fields that a run never changes are those of `other`.
    pub open spec fn same_run(self, other: StageProgress) -> bool {
        &&& self.format_version == other.format_version
        &&& self.stage == other.stage
        &&& self.dataset_dir == other.dataset_dir
        &&& self.batch_size == other.batch_size
        &&& self.epochs == other.epochs
        &&& self.max_steps == other.max_steps
        &&& self.seed == other.seed
        &&& self.batches_per_epoch == other.batches_per_epoch
    }

    /// The best validation on record.
    pub open spec fn best(self) -> BestRecord {
        BestRecord {
            validation: self.best_validation,
            epoch: self.best_epoch,
            step: self.best_step,
        }
    }

    /// The progress stands at the step of its best validation.
    pub open spec fn at_best(self) -> bool {
        self.best_step == Some(self.global_step)
    }

    /// The best validation on record is that of `other`.
    pub open spec fn same_best(self, other: StageProgress) -> bool {
        self.best() == other.best()
    }
}

/// Takes up a saved progress, or starts a fresh one where there is none.
///
/// A saved progress of another run is refused.
pub fn load_or_create_progress(
    settings: &StageSettings,
    dataset_dir: &str,
    saved: Option<StageProgress>,
    now: u64,
) -> (result: Result<StageProgress, &'static str>)
    requires
        settings.well_formed(),
    ensures
        match saved {
            Some(progress) => if progress.belongs_to(*settings, dataset_dir@) {
                result == Ok::<StageProgress, &'static str>(progress)
            } else {
                result matches Err(message) && message@
                    == "resume state is incompatible with current arguments"@
            },
            None => result matches Ok(progress) && progress.belongs_to(*settings, dataset_dir@)
                && progress.dataset_dir@ == dataset_dir@ && progress.is_fresh(now),
        },
{
    let batches: usize = batch_count(settings.rows, settings.batch_size);
    match saved {
        Some(progress) => {
            if progress.stage == settings.stage && is_same_path(
                progress.dataset_dir.as_str(),
                dataset_dir,
            )
                && progress.batch_size == settings.batch_size && progress.epochs == settings.epochs
                && progress.max_steps == settings.max_steps && progress.seed == settings.seed
                && progress.batches_per_epoch == batches {
                Ok(progress)
            } else {
                Err("resume state is incompatible with current arguments")
            }
        },
        None => Ok(
            StageProgress {
                format_version: PROGRESS_FORMAT,
                stage: settings.stage,
                dataset_dir: dataset_dir.to_owned(),
                batch_size: settings.batch_size,
                epochs: settings.epochs,
                max_steps: settings.max_steps,
                seed: settings.seed,
                batches_per_epoch: batches,
                global_step: 0,
                best_validation: None,
                best_epoch: None,
                best_step: None,
                completed_requested_steps: false,
                updated_at_unix: now,
            },
        ),
    }
}

/// A stage on its way from the saved step to the target.
#[derive(Debug)]
pub struct StageRun {
    pub settings: StageSettings,
    pub batches: usize,
    pub target: usize,
    pub progress: StageProgress,
    pub next_step: usize,
    pub cached_epoch: Option<usize>,
}

impl StageRun {
    /// All requested steps are taken.
    pub open spec fn complete(self) -> bool {
        self.progress.global_step == self.settings.target()
    }

    /// What holds between the calls of a run.
    pub open spec fn well_formed(self) -> bool {
        &&& self.settings.well_formed()
        &&& self.batches == self.settings.batches()
        &&& self.target == self.settings.target()
        &&& self.progress.global_step <= self.next_step <= self.target
    }

    /// Takes up a stage at the step of its progress.
    pub fn start(settings: StageSettings, progress: StageProgress) -> (result: Result<
        StageRun,
        StageError,
    >)
        requires
            settings.well_formed(),
        ensures
            result is Ok <==> settings.can_resume_at(progress.global_step as int),
            match result {
                Ok(run) => {
                    &&& settings.epochs * settings.batches() <= usize::MAX
                    &&& progress.global_step <= settings.target()
                    &&& run.well_formed()
                    &&& run.settings == settings
                    &&& run.progress == progress
                    &&& run.next_step == progress.global_step
                    &&& run.cached_epoch is None
                },
                Err(StageError::StepsOverflow) => settings.epochs * settings.batches()
                    > usize::MAX,
                Err(StageError::PastTarget { step, target }) => {
                    &&& settings.epochs * settings.batches() <= usize::MAX
                    &&& progress.global_step > settings.target()
                    &&& step == progress.global_step
                    &&& target == settings.target()
                },
            },
    {
        let batches: usize = batch_count(settings.rows, settings.batch_size);
        let target: usize = match requested_steps(settings.epochs, batches, settings.max_steps) {
            Ok(steps) => steps,
            Err(error) => {
                return Err(error);
            },
        };
        if progress.global_step > target {
            return Err(StageError::PastTarget { step: progress.global_step, target });
        }
        let next_step: usize = progress.global_step;
        Ok(StageRun { settings, batches, target, progress, next_step, cached_epoch: None })
    }

    /// Plans the next step of the run, or nothing where the target is reached.
    pub fn next(&mut self) -> (plan: Option<StepPlan>)
        requires
            old(self).well_formed(),
        ensures
            final(self).well_formed(),
            final(self).settings == old(self).settings,
            final(self).progress == old(self).progress,
            old(self).next_step == old(self).target ==> plan is None && *final(self) == *old(self),
            old(self).next_step < old(self).target ==> {
                let step = old(self).next_step as int;
                &&& plan == Some(old(self).settings.planned(step, old(self).cached_epoch))
                &&& final(self).next_step == step + 1
                &&& final(self).cached_epoch == Some(old(self).settings.epoch_of(step) as usize)
            },
    {
        if self.next_step >= self.target {
            return None;
        }
        let step: usize = self.next_step;
        proof {
            lemma_plan_in_range(self.settings, step as int);
        }
        let epoch: usize = step / self.batches;
        let batch_index: usize = step % self.batches;
        let batch_size: usize = self.settings.batch_size;
        let first_row: usize = batch_index * batch_size;
        let end_row: usize = if batch_size > self.settings.rows - first_row {
            self.settings.rows
        } else {
            first_row + batch_size
        };
        let reordered = match self.cached_epoch {
            Some(cached) => cached != epoch,
            None => true,
        };
        let shuffle = if reordered {
            let seed: u64 = match self.settings.stage {
                TrainingStage::Prober => self.settings.seed.wrapping_add(PROBER_SHUFFLE_OFFSET),
                _ => self.settings.seed,
            };
            Some((seed, epoch))
        } else {
            None
        };
        let is_prober = match self.settings.stage {
            TrainingStage::Prober => true,
            _ => false,
        };
        self.next_step = step + 1;
        self.cached_epoch = Some(epoch);
        Some(
            StepPlan {
                step_index: step,
                epoch,
                batch_index,
                shuffle,
                first_row,
                end_row,
                passed_over: !is_prober && end_row - first_row < 2,
            },
        )
    }

    /// Records that the planned step was trained, and says what follows it.
    pub fn trained(&mut self, plan: &StepPlan) -> (marks: StepMarks)
        requires
            old(self).well_formed(),
            plan.step_index < old(self).next_step,
            old(self).progress.global_step <= plan.step_index,
        ensures
            final(self).well_formed(),
            final(self).settings == old(self).settings,
            final(self).next_step == old(self).next_step,
            final(self).cached_epoch == old(self).cached_epoch,
            final(self).progress.global_step == plan.step_index + 1,
            final(self).progress.same_run(old(self).progress),
            final(self).progress.same_best(old(self).progress),
            final(self).progress.completed_requested_steps
                == old(self).progress.completed_requested_steps,
            final(self).progress.updated_at_unix == old(self).progress.updated_at_unix,
            marks == old(self).settings.marked(plan.step_index as int),
    {
        proof {
            lemma_plan_in_range(self.settings, plan.step_index as int);
        }
        let done: usize = plan.step_index + 1;
        self.progress.global_step = done;
        let epoch_end = plan.step_index % self.batches + 1 == self.batches;
        let target_end = done == self.target;
        StepMarks {
            log: done == 1 || done % self.settings.log_every == 0,
            validate: epoch_end || target_end,
            save: epoch_end || target_end || (self.settings.save_every > 0 && done
                % self.settings.save_every == 0),
        }
    }

    /// Records a validation result; the first one, and each one below the best, becomes the best.
    pub fn validated(&mut self, plan: &StepPlan, validation: Score) -> (improved: bool)
        requires
            old(self).well_formed(),
            plan.epoch < usize::MAX,
        ensures
            final(self).well_formed(),
            final(self).settings == old(self).settings,
            final(self).next_step == old(self).next_step,
            final(self).cached_epoch == old(self).cached_epoch,
            final(self).progress.same_run(old(self).progress),
            final(self).progress.global_step == old(self).progress.global_step,
            final(self).progress.completed_requested_steps
                == old(self).progress.completed_requested_steps,
            final(self).progress.updated_at_unix == old(self).progress.updated_at_unix,
            improved == old(self).progress.best().improved_by(validation),
            final(self).progress.best() == old(self).progress.best().after(
                (Validation {
                    result: validation,
                    epoch: (plan.epoch + 1) as usize,
                    step: old(self).progress.global_step,
                }),
            ),
    {
        let improved = match self.progress.best_validation {
            None => true,
            Some(best) => validation.is_below(best),
        };
        if improved {
            let step: usize = self.progress.global_step;
            self.progress.best_validation = Some(validation);
            self.progress.best_epoch = Some(plan.epoch + 1);
            self.progress.best_step = Some(step);
        }
        improved
    }

    /// Brings the progress into the state in which it is saved, and says whether the snapshot
    /// holds the best step.
    ///
    /// An optimizer that has taken another number of steps is refused.
    pub fn saving(&mut self, optimizer_step: usize, now: u64) -> (result: Result<
        bool,
        &'static str,
    >)
        requires
            old(self).well_formed(),
        ensures
            final(self).well_formed(),
            final(self).settings == old(self).settings,
            final(self).next_step == old(self).next_step,
            final(self).cached_epoch == old(self).cached_epoch,
            final(self).progress.same_run(old(self).progress),
            final(self).progress.same_best(old(self).progress),
            final(self).progress.global_step == old(self).progress.global_step,
            final(self).progress.completed_requested_steps == (old(self).progress.global_step
                == old(self).target),
            final(self).progress.updated_at_unix == now,
            result matches Ok(best) ==> best == old(self).progress.at_best(),
            final(self).progress.completed_requested_steps == old(self).complete(),
            match result {
                Ok(best) => optimizer_step == old(self).progress.global_step && best == (old(
                    self,
                ).progress.best_step == Some(old(self).progress.global_step)),
                Err(message) => optimizer_step != old(self).progress.global_step && message@
                    == "optimizer/progress step mismatch"@,
            },
    {
        let step: usize = self.progress.global_step;
        self.progress.completed_requested_steps = step == self.target;
        self.progress.updated_at_unix = now;
        if optimizer_step != step {
            return Err("optimizer/progress step mismatch");
        }
        Ok(
            match self.progress.best_step {
                Some(best) => best == step,
                None => false,
            },
        )
    }
}

proof fn lemma_plan_in_range(settings: StageSettings, step: int)
    requires
        settings.well_formed(),
        step >= 0,
    ensures
        settings.batches() > 0,
        0 <= settings.epoch_of(step) <= step,
        0 <= settings.batch_index(step) < settings.batches(),
        settings.epoch_of(step) * settings.batches() + settings.batch_index(step) == step,
        0 <= settings.first_row(step) < settings.rows,
        settings.first_row(step) < settings.end_row(step) <= settings.rows,
{
    let rows = settings.rows as int;
    let size = settings.batch_size as int;
    crate::batching::law_batches_reach_all_rows(rows, size);
    let batches = settings.batches();
    assert(batches > 0) by (nonlinear_arith)
        requires
            batches * size >= rows,
            rows > 0,
            size > 0,
    ;
    lemma_fundamental_div_mod(step, batches);
    lemma_mod_bound(step, batches);
    lemma_mul_is_commutative(batches, settings.epoch_of(step));
    let epoch = settings.epoch_of(step);
    assert(0 <= epoch <= step) by (nonlinear_arith)
        requires
            epoch == step / batches,
            step >= 0,
            batches > 0,
    ;
    crate::batching::law_batches_are_filled(rows, settings.batch_index(step), size);
}

/// The steps of an epoch take its rows one batch behind the other: the first begins with the first
/// row, each goes on where the one before ended, all but the last are full, and the last ends with
/// the rows. The next step begins the next epoch.
#[verifier::spinoff_prover]
pub proof fn law_epochs_train_every_row(settings: StageSettings, step: int)
    requires
        settings.well_formed(),
        step >= 0,
    ensures
        step == 0 ==> settings.epoch_of(step) == 0 && settings.first_row(step) == 0,
        settings.epoch_of(step + 1) == settings.epoch_of(step) ==> {
            &&& !settings.ends_epoch(step)
            &&& settings.end_row(step) == settings.first_row(step) + settings.batch_size
            &&& settings.first_row(step + 1) == settings.end_row(step)
        },
        settings.epoch_of(step + 1) != settings.epoch_of(step) ==> {
            &&& settings.ends_epoch(step)
            &&& settings.epoch_of(step + 1) == settings.epoch_of(step) + 1
            &&& settings.end_row(step) == settings.rows
            &&& settings.first_row(step + 1) == 0
        },
        0 < settings.end_row(step) - settings.first_row(step) <= settings.batch_size,
{
    lemma_plan_in_range(settings, step);
    let rows = settings.rows as int;
    let size = settings.batch_size as int;
    let batches = settings.batches();
    let epoch = settings.epoch_of(step);
    let index = settings.batch_index(step);
    crate::batching::law_batches_reach_all_rows(rows, size);
    crate::batching::law_batches_are_filled(rows, index, size);
    if step == 0 {
        lemma_fundamental_div_mod_converse(0, batches, 0, 0);
    }
    if index + 1 < batches {
        lemma_fundamental_div_mod_converse(step + 1, batches, epoch, index + 1);
        assert((index + 1) * size == index * size + size) by (nonlinear_arith);
    } else {
        assert((epoch + 1) * batches == epoch * batches + batches) by (nonlinear_arith);
        lemma_fundamental_div_mod_converse(step + 1, batches, epoch + 1, 0);
        assert(index == batches - 1);
        assert(index * size + size == batches * size) by (nonlinear_arith)
            requires
                index == batches - 1,
        ;
        assert(settings.first_row(step) == index * size);
        assert(settings.end_row(step) == rows);
        assert(settings.batch_index(step + 1) == 0);
        assert(0 * size == 0) by (nonlinear_arith);
        assert(settings.first_row(step + 1) == 0);
    }
}

/// Only a batch of a single row is passed over, and only where the latent model is trained.
pub proof fn law_single_rows_do_not_train_the_latent_model(settings: StageSettings, step: int)
    requires
        settings.well_formed(),
        step >= 0,
    ensures
        settings.stage == TrainingStage::Prober ==> !settings.passes_over(step),
        settings.stage != TrainingStage::Prober ==> (settings.passes_over(step)
            <==> settings.end_row(step) == settings.first_row(step) + 1),
{
    lemma_plan_in_range(settings, step);
}

/// The prober's shuffles derive from the run's seed, moved on by a fixed number.
pub proof fn law_probers_shuffle_by_their_own_seed(settings: StageSettings)
    ensures
        settings.stage != TrainingStage::Prober ==> settings.shuffle_seed() == settings.seed,
        settings.stage == TrainingStage::Prober ==> settings.shuffle_seed()
            == settings.seed.wrapping_add(0x0053_4b59_4a45_5041),
{
}

/// A plan names the step, and the epoch and rows that belong to it; the rows are put into a new order
/// where they are in that of another epoch, by a seed that is the run's for the latent model and
/// another one for the prober.
pub proof fn law_plans_describe_their_step(
    settings: StageSettings,
    step: int,
    cached_epoch: Option<usize>,
)
    requires
        settings.well_formed(),
        0 <= step <= usize::MAX,
    ensures
        ({
            let plan = settings.planned(step, cached_epoch);
            &&& plan.step_index == step
            &&& plan.epoch * settings.batches() + plan.batch_index == step
            &&& plan.batch_index < settings.batches()
            &&& plan.first_row == plan.batch_index * settings.batch_size
            &&& plan.first_row < plan.end_row <= settings.rows
            &&& plan.shuffle is None <==> cached_epoch == Some(plan.epoch)
            &&& plan.shuffle matches Some(order) ==> order.1 == plan.epoch && (order.0
                == settings.seed <==> settings.stage != TrainingStage::Prober)
        }),
{
    lemma_plan_in_range(settings, step);
    let index = settings.batch_index(step);
    let size = settings.batch_size as int;
    assert(0 <= index * size) by (nonlinear_arith)
        requires
            0 <= index,
            0 < size,
    ;
}

/// The first step is logged, and besides it every `log_every`-th and no other.
#[verifier::spinoff_prover]
pub proof fn law_steps_are_logged_at_intervals(settings: StageSettings, count: int, step: int)
    requires
        settings.well_formed(),
        count > 0,
        step >= 0,
    ensures
        settings.marked(0).log,
        settings.marked(count * settings.log_every - 1).log,
        count * settings.log_every < step + 1 < (count + 1) * settings.log_every
            ==> !settings.marked(step).log,
        0 < step && step + 1 < settings.log_every ==> !settings.marked(step).log,
{
    let every = settings.log_every as int;
    lemma_fundamental_div_mod_converse(count * every, every, count, 0);
    assert((count + 1) * every == count * every + every) by (nonlinear_arith);
    if count * every < step + 1 < (count + 1) * every {
        assert(count * every > 0) by (nonlinear_arith)
            requires
                count > 0,
                every > 0,
        ;
        lemma_fundamental_div_mod_converse(step + 1, every, count, step + 1 - count * every);
    }
    if step + 1 < every {
        lemma_fundamental_div_mod_converse(step + 1, every, 0, step + 1);
    }
}

/// A run is validated behind the last step of each epoch and behind its own last step, and at no
/// other time. It is saved whenever it is validated and besides every `save_every` steps, where that
/// is set.
#[verifier::spinoff_prover]
pub proof fn law_runs_are_validated_and_saved(settings: StageSettings, count: int, step: int)
    requires
        settings.well_formed(),
        count > 0,
        step >= 0,
    ensures
        settings.marked(step).validate <==> settings.epoch_of(step + 1) != settings.epoch_of(step)
            || step + 1 == settings.target(),
        settings.marked(step).validate ==> settings.marked(step).save,
        settings.save_every > 0 ==> settings.marked(count * settings.save_every - 1).save,
        settings.save_every == 0 && settings.marked(step).save ==> settings.marked(step).validate,
        count * settings.save_every < step + 1 < (count + 1) * settings.save_every
            && settings.marked(step).save ==> settings.marked(step).validate,
        step + 1 < settings.save_every && settings.marked(step).save ==> settings.marked(
            step,
        ).validate,
{
    law_epochs_train_every_row(settings, step);
    let every = settings.save_every as int;
    if every > 0 {
        lemma_fundamental_div_mod_converse(count * every, every, count, 0);
        assert((count + 1) * every == count * every + every) by (nonlinear_arith);
        if count * every < step + 1 < (count + 1) * every {
            assert(count * every > 0) by (nonlinear_arith)
                requires
                    count > 0,
                    every > 0,
            ;
            lemma_fundamental_div_mod_converse(step + 1, every, count, step + 1 - count * every);
        }
        if step + 1 < every {
            lemma_fundamental_div_mod_converse(step + 1, every, 0, step + 1);
        }
    }
}

/// A run is complete once its last step is trained: then no step is left, and before it one is.
pub proof fn law_runs_are_complete_at_their_target(run: StageRun)
    requires
        run.well_formed(),
    ensures
        run.complete() ==> run.next_step == run.target,
        run.progress.global_step < run.target ==> !run.complete(),
        run.progress.global_step == run.target ==> run.complete(),
{
}

/// The order of the rows that a run begun at step `start` has last asked for when it trains
/// step `step`: the seed and the epoch of the shuffle.
pub open spec fn order_in_force(settings: StageSettings, start: int, step: int) -> (u64, usize)
    decreases step - start,
{
    let cached_epoch = if step <= start {
        None
    } else {
        Some(settings.epoch_of(step - 1) as usize)
    };
    match settings.planned(step, cached_epoch).shuffle {
        Some(order) => order,
        None => if step <= start {
            (settings.shuffle_seed(), 0)
        } else {
            order_in_force(settings, start, step - 1)
        },
    }
}

/// A run that is resumed at any saved step goes on as if it had never stopped: the global step
/// alone gives the epoch, the batch and the rows, and the rows stand in the order of the epoch's
/// own shuffle wherever the run began.
pub proof fn law_resume_continues_the_run(settings: StageSettings, start: int, step: int)
    requires
        settings.well_formed(),
        0 <= start <= step <= usize::MAX,
    ensures
        order_in_force(settings, start, step) == (
            settings.shuffle_seed(),
            settings.epoch_of(step) as usize,
        ),
        settings.epoch_of(step) * settings.batches() + settings.batch_index(step) == step,
        0 <= settings.batch_index(step) < settings.batches(),
        settings.first_row(step) < settings.end_row(step) <= settings.rows,
    decreases step - start,
{
    lemma_plan_in_range(settings, step);
    if step > start {
        law_resume_continues_the_run(settings, start, step - 1);
    }
}

/// Every progress that a run keeps is accepted when the same run is resumed.
pub proof fn law_progress_resumes_its_own_run(
    settings: StageSettings,
    dataset_dir: Seq<char>,
    taken_up: StageProgress,
    saved: StageProgress,
)
    requires
        taken_up.belongs_to(settings, dataset_dir),
        saved.same_run(taken_up),
    ensures
        saved.belongs_to(settings, dataset_dir),
{
}

/// A saved progress is refused where anything that decides what a run computes has changed: the
/// stage, the data set, the batches, the epochs, the limit or the seed.
pub proof fn law_progress_of_another_run_is_refused(
    settings: StageSettings,
    dataset_dir: Seq<char>,
    saved: StageProgress,
)
    requires
        ({
            ||| saved.stage != settings.stage
            ||| !same_path(saved.dataset_dir@, dataset_dir)
            ||| saved.batch_size != settings.batch_size
            ||| saved.epochs != settings.epochs
            ||| saved.max_steps != settings.max_steps
            ||| saved.seed != settings.seed
            ||| saved.batches_per_epoch != batches_for(
                settings.rows as int,
                settings.batch_size as int,
            )
        }),
    ensures
        !saved.belongs_to(settings, dataset_dir),
{
}

/// A fresh run begins at step zero, without a validation, in the current format.
pub proof fn law_fresh_runs_begin_at_zero(progress: StageProgress, now: u64)
    requires
        progress.is_fresh(now),
    ensures
        progress.global_step == 0,
        progress.best_validation is None,
        progress.best_epoch is None,
        progress.best_step is None,
        !progress.completed_requested_steps,
        progress.format_version == 2,
        progress.updated_at_unix == now,
{
}

/// What a run keeps of its settings never changes, and neither does the record of its best step
/// where it is kept.
pub proof fn law_kept_progress_is_the_same(first: StageProgress, second: StageProgress)
    ensures
        first.same_run(second) ==> first.format_version == second.format_version && first.stage
            == second.stage && first.dataset_dir == second.dataset_dir && first.batch_size
            == second.batch_size && first.epochs == second.epochs && first.max_steps
            == second.max_steps && first.seed == second.seed && first.batches_per_epoch
            == second.batches_per_epoch,
        first.same_best(second) ==> first.best_validation == second.best_validation
            && first.best_epoch == second.best_epoch && first.best_step == second.best_step,
{
}

/// A snapshot holds the best step exactly where the last improvement was found at its own step.
pub proof fn law_snapshots_at_the_best_step_are_best(
    before: StageProgress,
    after: StageProgress,
    found: Validation,
)
    requires
        found.step == after.global_step,
        after.best() == before.best().after(found),
    ensures
        before.best().improved_by(found.result) ==> after.at_best(),
        !before.best().improved_by(found.result) ==> (after.at_best() <==> before.best_step == Some(
            after.global_step,
        )),
{
}

/// The first validation, and each one with a result below that of the record, is put on record with
/// its result, its epoch and its step; any other leaves the record as it is.
pub proof fn law_better_results_are_put_on_record(record: BestRecord, found: Validation)
    ensures
        record.validation is None || found.result.below(record.validation->0) ==> {
            &&& record.improved_by(found.result)
            &&& record.after(found).validation == Some(found.result)
            &&& record.after(found).epoch == Some(found.epoch)
            &&& record.after(found).step == Some(found.step)
        },
        record.validation is Some && !found.result.below(record.validation->0) ==> {
            &&& !record.improved_by(found.result)
            &&& record.after(found) == record
        },
        BestRecord::blank().validation is None,
{
}

/// Where the first result of a run is a number, the best validation on record after any series of
/// validations is one of them: no result lies below it, and it is the earliest with its result.
pub proof fn law_best_is_least(series: Seq<Validation>)
    requires
        series.len() > 0,
        series[0].result is Key,
    ensures
        exists|best: int|
            {
                &&& 0 <= best < series.len()
                &&& BestRecord::blank().after_all(series) == BestRecord::of(#[trigger] series[best])
                &&& forall|i: int|
                    0 <= i < series.len() ==> !(#[trigger] series[i]).result.below(
                        series[best].result,
                    )
                &&& forall|i: int|
                    0 <= i < best ==> (#[trigger] series[i]).result != series[best].result
            },
{
    let best = lemma_best_place(series);
    assert(BestRecord::blank().after_all(series) == BestRecord::of(series[best]));
}

proof fn lemma_best_place(series: Seq<Validation>) -> (best: int)
    requires
        series.len() > 0,
        series[0].result is Key,
    ensures
        0 <= best < series.len(),
        series[best].result is Key,
        BestRecord::blank().after_all(series) == BestRecord::of(series[best]),
        forall|i: int|
            0 <= i < series.len() ==> !(#[trigger] series[i]).result.below(series[best].result),
        forall|i: int| 0 <= i < best ==> (#[trigger] series[i]).result != series[best].result,
    decreases series.len(),
{
    let before = series.drop_last();
    let last = series.len() - 1;
    if last == 0 {
        assert(BestRecord::blank().after_all(before) == BestRecord::blank());
        0
    } else {
        let place = lemma_best_place(before);
        assert(forall|i: int| 0 <= i < last ==> #[trigger] series[i] == before[i]);
        let record = BestRecord::blank().after_all(before);
        if record.improved_by(series[last].result) {
            last
        } else {
            place
        }
    }
}

/// The record of a run that is resumed is that of a run that never stopped: a later series of
/// validations goes on from what the earlier one left.
pub proof fn law_best_survives_a_resume(
    record: BestRecord,
    earlier: Seq<Validation>,
    later: Seq<Validation>,
)
    ensures
        record.after_all(earlier).after_all(later) == record.after_all(earlier + later),
    decreases later.len(),
{
    if later.len() == 0 {
        assert(earlier + later =~= earlier);
    } else {
        law_best_survives_a_resume(record, earlier, later.drop_last());
        assert((earlier + later).drop_last() =~= earlier + later.drop_last());
        assert((earlier + later).last() == later.last());
    }
}

/// Which part of the learning rate schedule a step lies in.
#[derive(Clone, Copy, PartialEq, Eq, Structural, Debug)]
pub enum RatePhase {
    /// The fraction `reached / warmup` of the maximal rate.
    Warmup { reached: usize, warmup: usize },
    /// The minimal rate.
    Minimum,
    /// On the cosine from the maximal to the minimal rate, `elapsed / span` of the way.
    Cosine { elapsed: usize, span: usize },
}

/// The learning rate phase of a step: a linear warmup, then one half cosine, then its end.
pub open spec fn rate_phase(step: int, warmup: int, cosine: int) -> RatePhase {
    if step < warmup {
        RatePhase::Warmup { reached: (step + 1) as usize, warmup: warmup as usize }
    } else if cosine == 0 {
        RatePhase::Minimum
    } else {
        RatePhase::Cosine {
            elapsed: min_of(step - warmup, cosine) as usize,
            span: cosine as usize,
        }
    }
}

/// Finds the learning rate phase of a step.
pub fn scheduled_phase(step: usize, warmup: usize, cosine: usize) -> (phase: RatePhase)
    ensures
        phase == rate_phase(step as int, warmup as int, cosine as int),
{
    if step < warmup {
        return RatePhase::Warmup { reached: step + 1, warmup };
    }
    if cosine == 0 {
        return RatePhase::Minimum;
    }
    let since: usize = step - warmup;
    let elapsed: usize = if since < cosine {
        since
    } else {
        cosine
    };
    RatePhase::Cosine { elapsed, span: cosine }
}

/// The warmup ends at the full rate, the cosine starts there, and it stays at its end.
pub proof fn law_rate_phases_meet(step: int, warmup: int, cosine: int)
    requires
        0 <= step <= usize::MAX,
        0 <= warmup <= usize::MAX,
        0 <= cosine <= usize::MAX,
    ensures
        step < warmup ==> (rate_phase(step, warmup, cosine) matches RatePhase::Warmup {
            reached,
            warmup: all,
        } && 0 < reached <= all && (reached == all <==> step + 1 == warmup)),
        step == warmup && cosine > 0 ==> (rate_phase(step, warmup, cosine) matches
            RatePhase::Cosine { elapsed, .. } && elapsed == 0),
        step - warmup >= cosine > 0 ==> (rate_phase(step, warmup, cosine) matches
            RatePhase::Cosine { elapsed, span } && elapsed == span),
{
}

/// Every step of the warmup brings the rate nearer to the maximal one by the same part, and every
/// step of the decay goes on along the cosine by the same part, until its end is reached. Without
/// a decay the rate is minimal behind the warmup.
pub proof fn law_rates_change_with_every_step(step: int, warmup: int, cosine: int)
    requires
        0 <= step,
        0 <= warmup,
        0 <= cosine,
        step + 1 <= usize::MAX,
        warmup <= usize::MAX,
        cosine <= usize::MAX,
    ensures
        step < warmup ==> (rate_phase(step, warmup, cosine) matches RatePhase::Warmup {
            reached,
            warmup: all,
        } && reached == step + 1 && all == warmup),
        warmup <= step < warmup + cosine ==> (rate_phase(step, warmup, cosine) matches
            RatePhase::Cosine { elapsed, span } && elapsed == step - warmup && span == cosine && (
        rate_phase(step + 1, warmup, cosine) matches RatePhase::Cosine {
            elapsed: next,
            span: same_span,
        } && next == elapsed + 1 && same_span == span)),
        step >= warmup + cosine && cosine > 0 ==> (rate_phase(step, warmup, cosine) matches
            RatePhase::Cosine { elapsed, span } && elapsed == cosine && span == cosine),
        step >= warmup && cosine == 0 ==> rate_phase(step, warmup, cosine) == RatePhase::Minimum,
{
}

/// The settings of the command line that are checked before anything else.
#[derive(Clone, Copy, Debug)]
pub struct CheckedArgs {
    pub latent_epochs: usize,
    pub prober_epochs: usize,
    pub batch_size: usize,
    pub model_rate_hz: usize,
    pub log_every: usize,
    pub latent_max_steps: Option<usize>,
    pub prober_max_steps: Option<usize>,
    pub max_lr: Score,
    pub min_lr: Score,
    pub weight_decay: Score,
    pub grad_clip: Score,
    pub mass: Score,
    pub hover_throttle: Score,
}

impl CheckedArgs {
    /// The message of the first check that fails.
    pub open spec fn refusal(self) -> Option<Seq<char>> {
        if self.latent_epochs == 0 {
            Some("latent_epochs must be positive"@)
        } else if self.prober_epochs == 0 {
            Some("prober_epochs must be positive"@)
        } else if self.batch_size <= 1 {
            Some("batch_size must be at least two"@)
        } else if self.model_rate_hz == 0 {
            Some("model_rate_hz must be positive"@)
        } else if self.log_every == 0 {
            Some("log_every must be positive"@)
        } else if self.latent_max_steps == Some(0usize) {
            Some("latent_max_steps must be positive"@)
        } else if self.prober_max_steps == Some(0usize) {
            Some("prober_max_steps must be positive"@)
        } else if !self.max_lr.positive() {
            Some("max_lr must be positive"@)
        } else if !(self.min_lr.positive() && self.min_lr.at_most(self.max_lr)) {
            Some("min_lr must be positive and no greater than max_lr"@)
        } else if !self.weight_decay.non_negative() {
            Some("weight_decay must be non-negative"@)
        } else if !self.grad_clip.positive() {
            Some("grad_clip must be positive"@)
        } else if !self.mass.positive() {
            Some("mass must be positive"@)
        } else if !self.hover_throttle.positive() {
            Some("hover_throttle must be positive"@)
        } else {
            None
        }
    }
}

/// Checks the settings of the command line, in order.
pub fn validate_args(args: &CheckedArgs) -> (result: Result<(), &'static str>)
    ensures
        match result {
            Ok(()) => args.refusal() is None,
            Err(message) => args.refusal() == Some(message@),
        },
{
    if args.latent_epochs == 0 {
        return Err("latent_epochs must be positive");
    }
    if args.prober_epochs == 0 {
        return Err("prober_epochs must be positive");
    }
    if args.batch_size <= 1 {
        return Err("batch_size must be at least two");
    }
    if args.model_rate_hz == 0 {
        return Err("model_rate_hz must be positive");
    }
    if args.log_every == 0 {
        return Err("log_every must be positive");
    }
    if let Some(0) = args.latent_max_steps {
        return Err("latent_max_steps must be positive");
    }
    if let Some(0) = args.prober_max_steps {
        return Err("prober_max_steps must be positive");
    }
    if !args.max_lr.is_positive() {
        return Err("max_lr must be positive");
    }
    if !(args.min_lr.is_positive() && args.min_lr.is_at_most(args.max_lr)) {
        return Err("min_lr must be positive and no greater than max_lr");
    }
    if !args.weight_decay.is_non_negative() {
        return Err("weight_decay must be non-negative");
    }
    if !args.grad_clip.is_positive() {
        return Err("grad_clip must be positive");
    }
    if !args.mass.is_positive() {
        return Err("mass must be positive");
    }
    if !args.hover_throttle.is_positive() {
        return Err("hover_throttle must be positive");
    }
    Ok(())
}

/// Settings are accepted exactly where each of them is in its range.
pub proof fn law_accepted_settings_are_in_range(args: CheckedArgs)
    ensures
        args.refusal() is None <==> {
            &&& args.latent_epochs > 0
            &&& args.prober_epochs > 0
            &&& args.batch_size >= 2
            &&& args.model_rate_hz > 0
            &&& args.log_every > 0
            &&& args.latent_max_steps matches Some(limit) ==> limit > 0
            &&& args.prober_max_steps matches Some(limit) ==> limit > 0
            &&& args.max_lr.positive()
            &&& args.min_lr.positive()
            &&& !args.max_lr.below(args.min_lr)
            &&& args.weight_decay.non_negative()
            &&& args.grad_clip.positive()
            &&& args.mass.positive()
            &&& args.hover_throttle.positive()
        },
{
}

/// Checks that there is enough to train on and something to validate with, in order.
pub fn check_split(train_windows: usize, validation_windows: usize) -> (result: Result<
    (),
    &'static str,
>)
    ensures
        match result {
            Ok(()) => train_windows >= 2 && validation_windows > 0,
            Err(message) => if train_windows < 2 {
                message@ == "SkyJEPA training split contains fewer than two windows"@
            } else {
                validation_windows == 0 && message@
                    == "SkyJEPA validation split contains no windows"@
            },
        },
{
    if train_windows < 2 {
        return Err("SkyJEPA training split contains fewer than two windows");
    }
    if validation_windows == 0 {
        return Err("SkyJEPA validation split contains no windows");
    }
    Ok(())
}

/// The epochs and the step limit of the stage that a run begins with.
pub fn stage_budget(
    stage: TrainingStage,
    latent: (usize, Option<usize>),
    prober: (usize, Option<usize>),
) -> (budget: (usize, Option<usize>))
    ensures
        budget == budget_of(stage, latent, prober),
        budget == if stage == TrainingStage::Prober {
            prober
        } else {
            latent
        },
{
    match stage {
        TrainingStage::Prober => prober,
        _ => latent,
    }
}

/// The prober's own budget counts where the prober alone is trained, and the latent model's in any
/// other case.
pub open spec fn budget_of(
    stage: TrainingStage,
    latent: (usize, Option<usize>),
    prober: (usize, Option<usize>),
) -> (usize, Option<usize>) {
    if stage == TrainingStage::Prober {
        prober
    } else {
        latent
    }
}

/// A run that trains both stages begins as one that trains the latent model: with its budget and
/// under its name.
pub proof fn law_both_stages_begin_with_the_latent_model(
    latent: (usize, Option<usize>),
    prober: (usize, Option<usize>),
)
    ensures
        budget_of(TrainingStage::Both, latent, prober) == latent,
        budget_of(TrainingStage::Latent, latent, prober) == latent,
        budget_of(TrainingStage::Prober, latent, prober) == prober,
        first_stage_name(TrainingStage::Both) == "latent"@,
        first_stage_name(TrainingStage::Latent) == "latent"@,
        first_stage_name(TrainingStage::Prober) == "prober"@,
{
}

/// The name under which the stage that a run begins with stores its files.
pub open spec fn first_stage_name(stage: TrainingStage) -> Seq<char> {
    if stage == TrainingStage::Prober {
        "prober"@
    } else {
        "latent"@
    }
}

/// Names the stage that a run begins with.
pub fn first_stage(stage: TrainingStage) -> (name: &'static str)
    ensures
        name@ == first_stage_name(stage),
{
    match stage {
        TrainingStage::Prober => "prober",
        _ => "latent",
    }
}

/// The seed of the device while the prober trains.
pub fn prober_device_seed(seed: u64) -> (result: u64)
    ensures
        result == seed ^ 0x5052_4f42_4552_5f53,
        result == seed ^ PROBER_DEVICE_MASK,
{
    seed ^ PROBER_DEVICE_MASK
}

/// Why a run may not use its output directory.
#[derive(Clone, Copy, PartialEq, Eq, Structural, Debug)]
pub enum OutputError {
    /// Resuming and overwriting exclude each other.
    ResumeAndOverwrite,
    /// Only one stage at a time is resumed.
    ResumeBoth,
    /// There is nothing to resume.
    NoOutputDir,
    /// A run of this stage is there already.
    StageExists(TrainingStage),
}

/// What stands against using the output directory: `latent_there` and `prober_there` say whether
/// it holds a run of the stage.
pub open spec fn output_refusal(
    stage: TrainingStage,
    resume: bool,
    overwrite: bool,
    dir_there: bool,
    latent_there: bool,
    prober_there: bool,
) -> Option<OutputError> {
    if resume && overwrite {
        Some(OutputError::ResumeAndOverwrite)
    } else if resume && stage == TrainingStage::Both {
        Some(OutputError::ResumeBoth)
    } else if resume {
        if dir_there {
            None
        } else {
            Some(OutputError::NoOutputDir)
        }
    } else if overwrite {
        None
    } else if stage != TrainingStage::Prober && latent_there {
        Some(OutputError::StageExists(TrainingStage::Latent))
    } else if stage != TrainingStage::Latent && prober_there {
        Some(OutputError::StageExists(TrainingStage::Prober))
    } else {
        None
    }
}

/// Decides whether a run may use its output directory.
pub fn prepare_output_dir(
    stage: TrainingStage,
    resume: bool,
    overwrite: bool,
    dir_there: bool,
    latent_there: bool,
    prober_there: bool,
) -> (result: Result<(), OutputError>)
    ensures
        match result {
            Ok(()) => output_refusal(
                stage,
                resume,
                overwrite,
                dir_there,
                latent_there,
                prober_there,
            ) is None,
            Err(error) => output_refusal(
                stage,
                resume,
                overwrite,
                dir_there,
                latent_there,
                prober_there,
            ) == Some(error),
        },
{
    if resume && overwrite {
        return Err(OutputError::ResumeAndOverwrite);
    }
    if resume {
        if stage == TrainingStage::Both {
            return Err(OutputError::ResumeBoth);
        }
        if !dir_there {
            return Err(OutputError::NoOutputDir);
        }
        return Ok(());
    }
    if overwrite {
        return Ok(());
    }
    if stage != TrainingStage::Prober && latent_there {
        return Err(OutputError::StageExists(TrainingStage::Latent));
    }
    if stage != TrainingStage::Latent && prober_there {
        return Err(OutputError::StageExists(TrainingStage::Prober));
    }
    Ok(())
}

/// A run without `overwrite` never replaces a run that is there.
pub proof fn law_existing_runs_are_kept(
    stage: TrainingStage,
    resume: bool,
    dir_there: bool,
    latent_there: bool,
    prober_there: bool,
)
    requires
        output_refusal(stage, resume, false, dir_there, latent_there, prober_there) is None,
        !resume,
    ensures
        stage != TrainingStage::Prober ==> !latent_there,
        stage != TrainingStage::Latent ==> !prober_there,
{
}

/// A run is resumed only where its directory is there and a single stage is asked for, and never
/// overwritten at the same time. A run that overwrites may always begin. Any other may begin exactly
/// where no run of a stage that it would train is there.
pub proof fn law_output_is_used_as_asked(
    stage: TrainingStage,
    resume: bool,
    overwrite: bool,
    dir_there: bool,
    latent_there: bool,
    prober_there: bool,
)
    ensures
        ({
            let accepted = output_refusal(
                stage,
                resume,
                overwrite,
                dir_there,
                latent_there,
                prober_there,
            ) is None;
            &&& resume ==> (accepted <==> !overwrite && dir_there && (stage
                == TrainingStage::Latent || stage == TrainingStage::Prober))
            &&& overwrite && !resume ==> accepted
            &&& !overwrite && !resume ==> (accepted <==> match stage {
                TrainingStage::Latent => !latent_there,
                TrainingStage::Prober => !prober_there,
                TrainingStage::Both => !latent_there && !prober_there,
            })
        }),
        output_refusal(stage, resume, overwrite, dir_there, latent_there, prober_there) == Some(
            OutputError::StageExists(TrainingStage::Latent),
        ) ==> latent_there,
        output_refusal(stage, resume, overwrite, dir_there, latent_there, prober_there) == Some(
            OutputError::StageExists(TrainingStage::Prober),
        ) ==> prober_there,
{
}

/// The files of a stage that starting it anew removes.
pub open spec fn stage_files(stage: Seq<char>) -> Seq<Seq<char>> {
    seq![
        stage + ".safetensors"@,
        stage + "-best.safetensors"@,
        stage + "-latest.safetensors"@,
        stage + "-optimizer.safetensors"@,
        stage + "-training-state.json"@,
        stage + "-current.json"@,
        stage + "-metrics.jsonl"@,
    ]
}

/// Starting a stage anew removes its weights, its snapshots, its optimizer, its state and its
/// metrics, and nothing else.
pub proof fn law_a_stage_is_removed_whole(stage: Seq<char>)
    ensures
        stage_files(stage).len() == 7,
        stage_files(stage).contains(stage + ".safetensors"@),
        stage_files(stage).contains(stage + "-best.safetensors"@),
        stage_files(stage).contains(stage + "-latest.safetensors"@),
        stage_files(stage).contains(stage + "-optimizer.safetensors"@),
        stage_files(stage).contains(stage + "-training-state.json"@),
        stage_files(stage).contains(stage + "-current.json"@),
        stage_files(stage).contains(stage + "-metrics.jsonl"@),
{
    let names = stage_files(stage);
    assert(names[0] == stage + ".safetensors"@);
    assert(names[1] == stage + "-best.safetensors"@);
    assert(names[2] == stage + "-latest.safetensors"@);
    assert(names[3] == stage + "-optimizer.safetensors"@);
    assert(names[4] == stage + "-training-state.json"@);
    assert(names[5] == stage + "-current.json"@);
    assert(names[6] == stage + "-metrics.jsonl"@);
}

/// Names a file of a stage.
pub fn stage_file(stage: &str, ending: &str) -> (name: String)
    ensures
        name@ == stage@ + ending@,
{
    stage.to_owned().concat(ending)
}

/// Names the files of a stage that starting it anew removes.
pub fn stage_artifacts(stage: &str) -> (names: Vec<String>)
    ensures
        crate::text::views(names@) == stage_files(stage@),
{
    let mut names: Vec<String> = Vec::new();
    names.push(stage_file(stage, ".safetensors"));
    names.push(stage_file(stage, "-best.safetensors"));
    names.push(stage_file(stage, "-latest.safetensors"));
    names.push(stage_file(stage, "-optimizer.safetensors"));
    names.push(stage_file(stage, "-training-state.json"));
    names.push(stage_file(stage, "-current.json"));
    names.push(stage_file(stage, "-metrics.jsonl"));
    assert(crate::text::views(names@) =~= stage_files(stage@));
    names
}

/// Why the audit of a data set does not admit training.
#[derive(Clone, Copy, PartialEq, Eq, Structural, Debug)]
pub enum AuditError {
    NotPassed,
    NoFingerprint,
    ContentChanged,
}

/// What an audit says against training.
pub open spec fn audit_refusal(
    passed: bool,
    audited: Seq<char>,
    current: Seq<char>,
) -> Option<AuditError> {
    if !passed {
        Some(AuditError::NotPassed)
    } else if audited.len() == 0 {
        Some(AuditError::NoFingerprint)
    } else if current != audited {
        Some(AuditError::ContentChanged)
    } else {
        None
    }
}

/// A data set is trained on only where it passed its audit and its content has the fingerprint that
/// was audited; a change of the content is refused.
pub proof fn law_only_audited_content_is_trained_on(
    passed: bool,
    audited: Seq<char>,
    current: Seq<char>,
)
    ensures
        audit_refusal(passed, audited, current) is None ==> passed && audited.len() > 0 && audited
            == current,
        passed && audited.len() > 0 ==> audit_refusal(passed, audited, audited) is None,
        passed && audited.len() > 0 && audited != current ==> audit_refusal(passed, audited, current)
            == Some(AuditError::ContentChanged),
        !passed ==> audit_refusal(passed, audited, current) == Some(AuditError::NotPassed),
{
}

/// Decides by its audit whether a data set may be trained on: it passed, and the content that
/// was audited is the content that is there.
pub fn check_audit(passed: bool, audited: &str, current: &str) -> (result: Result<(), AuditError>)
    ensures
        match audit_refusal(passed, audited@, current@) {
            None => result is Ok,
            Some(error) => result == Err::<(), AuditError>(error),
        },
        match result {
            Ok(()) => passed && audited@.len() > 0 && current@ == audited@,
            Err(AuditError::NotPassed) => !passed,
            Err(AuditError::NoFingerprint) => passed && audited@.len() == 0,
            Err(AuditError::ContentChanged) => passed && audited@.len() > 0 && current@ != audited@,
        },
{
    if !passed {
        return Err(AuditError::NotPassed);
    }
    if audited.unicode_len() == 0 {
        return Err(AuditError::NoFingerprint);
    }
    if !same(current, audited) {
        return Err(AuditError::ContentChanged);
    }
    Ok(())
}

/// One entry of a run's manifest: a name and the text of its value.
#[derive(Debug)]
pub struct ManifestField {
    pub name: String,
    pub value: String,
}

/// The names and values of a manifest.
pub open spec fn manifest_view(fields: Seq<ManifestField>) -> Seq<(Seq<char>, Seq<char>)> {
    Seq::new(fields.len(), |i: int| (fields[i].name@, fields[i].value@))
}

/// The entries that describe how a run was invoked, not what it computes.
pub open spec fn provenance(name: Seq<char>) -> bool {
    ||| name == "created_at_unix"@
    ||| name == "git_commit"@
    ||| name == "audit_report"@
}

fn is_provenance(name: &str) -> (answer: bool)
    ensures
        answer == provenance(name@),
{
    same(name, "created_at_unix") || same(name, "git_commit") || same(name, "audit_report")
}

/// The value of the last entry of that name.
pub open spec fn manifest_value(
    fields: Seq<(Seq<char>, Seq<char>)>,
    name: Seq<char>,
) -> Option<Seq<char>>
    decreases fields.len(),
{
    if fields.len() == 0 {
        None
    } else if fields.last().0 == name {
        Some(fields.last().1)
    } else {
        manifest_value(fields.drop_last(), name)
    }
}

/// The entry of the saved manifest is missing from the requested one, or has another value there.
pub open spec fn entry_changed(
    entry: (Seq<char>, Seq<char>),
    requested: Seq<(Seq<char>, Seq<char>)>,
) -> bool {
    !provenance(entry.0) && manifest_value(requested, entry.0) != Some(entry.1)
}

/// The names of the saved entries that a resumed run would change, in order.
pub open spec fn changed_names(
    saved: Seq<(Seq<char>, Seq<char>)>,
    requested: Seq<(Seq<char>, Seq<char>)>,
) -> Seq<Seq<char>>
    decreases saved.len(),
{
    if saved.len() == 0 {
        Seq::empty()
    } else {
        let before = changed_names(saved.drop_last(), requested);
        if entry_changed(saved.last(), requested) {
            before.push(saved.last().0)
        } else {
            before
        }
    }
}

fn holds_value(fields: &Vec<ManifestField>, name: &str, value: &str) -> (answer: bool)
    ensures
        answer == (manifest_value(manifest_view(fields@), name@) == Some(value@)),
{
    let mut left: usize = fields.len();
    let ghost all = manifest_view(fields@);
    assert(all.take(left as int) =~= all);
    while left > 0
        invariant
            left <= fields@.len(),
            all == manifest_view(fields@),
            manifest_value(all, name@) == manifest_value(all.take(left as int), name@),
        decreases left,
    {
        assert(all.take(left as int).drop_last() =~= all.take(left - 1));
        assert(all.take(left as int).last() == all[left - 1]);
        let field = &fields[left - 1];
        if same(field.name.as_str(), name) {
            return same(field.value.as_str(), value);
        }
        left = left - 1;
    }
    false
}

/// Compares the manifest of a saved run with the one that a resumed run would write.
///
/// Gives the names of the entries that differ; none differing means that the run may resume.
pub fn changed_entries(saved: &Vec<ManifestField>, requested: &Vec<ManifestField>) -> (names: Vec<
    String,
>)
    ensures
        crate::text::views(names@) == changed_names(
            manifest_view(saved@),
            manifest_view(requested@),
        ),
{
    let mut names: Vec<String> = Vec::new();
    let mut index: usize = 0;
    let ghost all = manifest_view(saved@);
    let ghost wanted = manifest_view(requested@);
    assert(crate::text::views(names@) =~= changed_names(all.take(0), wanted));
    while index < saved.len()
        invariant
            index <= saved@.len(),
            all == manifest_view(saved@),
            wanted == manifest_view(requested@),
            crate::text::views(names@) == changed_names(all.take(index as int), wanted),
        decreases saved@.len() - index,
    {
        let field = &saved[index];
        assert(all.take(index + 1).drop_last() =~= all.take(index as int));
        assert(all.take(index + 1).last() == all[index as int]);
        let ghost before = crate::text::views(names@);
        if !is_provenance(field.name.as_str()) && !holds_value(
            requested,
            field.name.as_str(),
            field.value.as_str(),
        ) {
            names.push(field.name.clone());
            assert(crate::text::views(names@) =~= before.push(all[index as int].0));
        }
        index = index + 1;
    }
    assert(all.take(all.len() as int) =~= all);
    names
}

/// The manifest of a run may be written where there is none, or where the run overwrites.
pub fn may_write_manifest(there: bool, overwrite: bool) -> (result: Result<(), &'static str>)
    ensures
        match result {
            Ok(()) => !there || overwrite,
            Err(message) => there && !overwrite && message@
                == "stage manifest already exists; use --resume or --overwrite"@,
        },
{
    if there && !overwrite {
        return Err("stage manifest already exists; use --resume or --overwrite");
    }
    Ok(())
}

/// The names of the entries are distinct.
pub open spec fn distinct_names(fields: Seq<(Seq<char>, Seq<char>)>) -> bool {
    forall|i: int, j: int|
        0 <= i < j < fields.len() ==> (#[trigger] fields[i]).0 != (#[trigger] fields[j]).0
}

proof fn lemma_value_found(fields: Seq<(Seq<char>, Seq<char>)>, index: int)
    requires
        distinct_names(fields),
        0 <= index < fields.len(),
    ensures
        manifest_value(fields, fields[index].0) == Some(fields[index].1),
    decreases fields.len(),
{
    if index < fields.len() - 1 {
        assert(fields.last() == fields[fields.len() - 1]);
        assert(fields.drop_last()[index] == fields[index]);
        lemma_value_found(fields.drop_last(), index);
    }
}

proof fn lemma_none_changed(
    saved: Seq<(Seq<char>, Seq<char>)>,
    requested: Seq<(Seq<char>, Seq<char>)>,
)
    requires
        forall|i: int| 0 <= i < saved.len() ==> !entry_changed(#[trigger] saved[i], requested),
    ensures
        changed_names(saved, requested) == Seq::<Seq<char>>::empty(),
    decreases saved.len(),
{
    if saved.len() > 0 {
        assert(saved.last() == saved[saved.len() - 1]);
        assert forall|i: int| 0 <= i < saved.len() - 1 implies !entry_changed(
            #[trigger] saved.drop_last()[i],
            requested,
        ) by {
            assert(saved.drop_last()[i] == saved[i]);
        }
        lemma_none_changed(saved.drop_last(), requested);
    }
}

/// A run may be resumed with a manifest that differs from the saved one in its provenance only.
pub proof fn law_provenance_does_not_block_resume(
    saved: Seq<(Seq<char>, Seq<char>)>,
    requested: Seq<(Seq<char>, Seq<char>)>,
)
    requires
        distinct_names(requested),
        saved.len() == requested.len(),
        forall|i: int|
            0 <= i < saved.len() ==> (#[trigger] saved[i]).0 == requested[i].0 && (provenance(
                saved[i].0,
            ) || saved[i].1 == requested[i].1),
    ensures
        changed_names(saved, requested) == Seq::<Seq<char>>::empty(),
{
    assert forall|i: int| 0 <= i < saved.len() implies !entry_changed(
        #[trigger] saved[i],
        requested,
    ) by {
        lemma_value_found(requested, i);
    }
    lemma_none_changed(saved, requested);
}

proof fn lemma_all_kept(
    saved: Seq<(Seq<char>, Seq<char>)>,
    requested: Seq<(Seq<char>, Seq<char>)>,
    index: int,
)
    requires
        changed_names(saved, requested).len() == 0,
        0 <= index < saved.len(),
    ensures
        !entry_changed(saved[index], requested),
    decreases saved.len(),
{
    assert(saved.last() == saved[saved.len() - 1]);
    if index < saved.len() - 1 {
        assert(saved.drop_last()[index] == saved[index]);
        lemma_all_kept(saved.drop_last(), requested, index);
    }
}

proof fn lemma_value_has_an_entry(fields: Seq<(Seq<char>, Seq<char>)>, name: Seq<char>) -> (index:
    int)
    requires
        manifest_value(fields, name) is Some,
    ensures
        0 <= index < fields.len(),
        fields[index].0 == name,
        manifest_value(fields, name) == Some(fields[index].1),
    decreases fields.len(),
{
    if fields.last().0 == name {
        fields.len() - 1
    } else {
        let index = lemma_value_has_an_entry(fields.drop_last(), name);
        assert(fields.drop_last()[index] == fields[index]);
        index
    }
}

/// Two manifests of which neither changes an entry of the other agree on every entry that is not
/// provenance: each has it with the same value, or neither has it.
pub proof fn law_unchanged_manifests_agree(
    saved: Seq<(Seq<char>, Seq<char>)>,
    requested: Seq<(Seq<char>, Seq<char>)>,
    name: Seq<char>,
)
    requires
        changed_names(saved, requested).len() == 0,
        changed_names(requested, saved).len() == 0,
        !provenance(name),
    ensures
        manifest_value(saved, name) == manifest_value(requested, name),
{
    if manifest_value(saved, name) is Some {
        let index = lemma_value_has_an_entry(saved, name);
        lemma_all_kept(saved, requested, index);
    } else if manifest_value(requested, name) is Some {
        let index = lemma_value_has_an_entry(requested, name);
        lemma_all_kept(requested, saved, index);
    }
}

proof fn lemma_changed_is_listed(
    saved: Seq<(Seq<char>, Seq<char>)>,
    requested: Seq<(Seq<char>, Seq<char>)>,
    index: int,
)
    requires
        0 <= index < saved.len(),
        entry_changed(saved[index], requested),
    ensures
        changed_names(saved, requested).contains(saved[index].0),
    decreases saved.len(),
{
    let before = saved.drop_last();
    let names = changed_names(saved, requested);
    if index == saved.len() - 1 {
        assert(names[names.len() - 1] == saved[index].0);
    } else {
        assert(before[index] == saved[index]);
        lemma_changed_is_listed(before, requested, index);
        let earlier = changed_names(before, requested);
        let place = choose|i: int| 0 <= i < earlier.len() && earlier[i] == saved[index].0;
        assert(names[place] == saved[index].0);
    }
}

/// A saved entry that the requested manifest does not hold with the same value is named, unless it
/// only tells when, from which sources or by which audit the run was invoked.
#[verifier::spinoff_prover]
pub proof fn law_changed_entries_are_named(
    saved: Seq<(Seq<char>, Seq<char>)>,
    requested: Seq<(Seq<char>, Seq<char>)>,
    index: int,
)
    requires
        0 <= index < saved.len(),
        saved[index].0 != "created_at_unix"@,
        saved[index].0 != "git_commit"@,
        saved[index].0 != "audit_report"@,
        !requested.contains(saved[index]),
    ensures
        changed_names(saved, requested).contains(saved[index].0),
{
    let entry = saved[index];
    if manifest_value(requested, entry.0) == Some(entry.1) {
        let place = lemma_value_has_an_entry(requested, entry.0);
        assert(requested[place] == entry);
    }
    lemma_changed_is_listed(saved, requested, index);
}

/// The last entry of a name gives its value, and the entries that tell how a run was invoked are not
/// compared.
#[verifier::spinoff_prover]
pub proof fn law_last_entries_count(fields: Seq<(Seq<char>, Seq<char>)>, index: int)
    requires
        0 <= index < fields.len(),
        forall|later: int|
            index < later < fields.len() ==> (#[trigger] fields[later]).0 != fields[index].0,
    ensures
        manifest_value(fields, fields[index].0) == Some(fields[index].1),
        provenance("created_at_unix"@),
        provenance("git_commit"@),
        provenance("audit_report"@),
    decreases fields.len(),
{
    if index < fields.len() - 1 {
        let before = fields.drop_last();
        assert(before[index] == fields[index]);
        assert(fields[fields.len() - 1].0 != fields[index].0);
        assert forall|later: int| index < later < before.len() implies (
        #[trigger] before[later]).0 != before[index].0 by {
            assert(before[later] == fields[later]);
        }
        law_last_entries_count(before, index);
    }
}

/// The data set that is trained on by default.
pub fn default_dataset_dir(home: Option<&str>) -> (path: String)
    ensures
        path@ == stored(home, "le-wm-nv-data"@, "skyjepa-domain-randomized-20hz"@),
{
    stored_dir(home, "le-wm-nv-data", "skyjepa-domain-randomized-20hz")
}

/// The directory that a run writes to by default.
pub fn default_output_dir(home: Option<&str>) -> (path: String)
    ensures
        path@ == stored(home, "le-wm-nv-runs"@, "skyjepa-drone-state18-20hz"@),
{
    stored_dir(home, "le-wm-nv-runs", "skyjepa-drone-state18-20hz")
}

} // verus!
