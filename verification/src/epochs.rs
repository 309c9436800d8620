//! Training in epochs of full batches, with a position that a later run can take up.

use crate::order::Score;
use crate::paths::{is_same_optional_path, is_same_path, same_optional_path, same_path};
use crate::text::{format_padded, padded_decimal};
use crate::train_skyjepa::{requested, requested_steps};
use vstd::arithmetic::div_mod::{lemma_fundamental_div_mod, lemma_mod_bound};
use vstd::prelude::*;

verus! {

/// The settings that decide how a run proceeds.
#[derive(Clone, Copy, PartialEq, Eq, Structural, Debug)]
pub struct EpochSettings {
    pub rows: usize,
    pub batch_size: usize,
    pub epochs: usize,
    pub max_steps: Option<usize>,
    pub log_every: usize,
    pub save_every: usize,
}

/// Why a run cannot start.
#[derive(Clone, Copy, PartialEq, Eq, Structural, Debug)]
pub enum EpochError {
    /// The rows do not fill one batch.
    TooFewRows,
    /// The number of steps of all epochs exceeds the machine's word size.
    StepsOverflow,
    /// The run has reached its target already.
    AtTarget { start: usize, target: usize },
}

/// Counts the batches of an epoch: those that the rows fill.
pub fn batches_per_epoch(rows: usize, batch_size: usize) -> (result: Result<usize, EpochError>)
    requires
        batch_size > 0,
    ensures
        result == if rows < batch_size {
            Err::<usize, EpochError>(EpochError::TooFewRows)
        } else {
            Ok::<usize, EpochError>((rows as int / batch_size as int) as usize)
        },
{
    proof {
        lemma_batch_bounds(rows as int, batch_size as int);
    }
    if rows < batch_size {
        return Err(EpochError::TooFewRows);
    }
    Ok(rows / batch_size)
}

proof fn lemma_batch_bounds(rows: int, batch_size: int)
    requires
        rows >= 0,
        batch_size > 0,
    ensures
        0 <= rows / batch_size <= rows,
        rows >= batch_size <==> rows / batch_size > 0,
        (rows / batch_size) * batch_size <= rows,
{
    assert(0 <= rows / batch_size <= rows && (rows >= batch_size <==> rows / batch_size > 0) && (
    rows / batch_size) * batch_size <= rows) by (nonlinear_arith)
        requires
            rows >= 0,
            batch_size > 0,
    ;
}

/// One step of a run.
#[derive(Clone, Copy, PartialEq, Eq, Structural, Debug)]
pub struct EpochStep {
    pub epoch: usize,
    pub batch_index: usize,
    /// The rows are first put into the order of the epoch.
    pub reorder: bool,
    pub first_row: usize,
    pub end_row: usize,
}

/// What follows a trained step.
#[derive(Clone, Copy, PartialEq, Eq, Structural, Debug)]
pub struct EpochMarks {
    pub log: bool,
    pub save: bool,
}

impl EpochSettings {
    /// The settings that the argument checks let through.
    pub open spec fn well_formed(self) -> bool {
        &&& self.batch_size > 0
        &&& self.log_every > 0
    }

    /// Batches of an epoch.
    pub open spec fn batches(self) -> int {
        self.rows as int / self.batch_size as int
    }

    /// The step at which the run ends.
    pub open spec fn target(self) -> int {
        requested(self.epochs as int, self.batches(), self.max_steps)
    }

    /// A run of these settings can begin at step `step`.
    pub open spec fn can_begin_at(self, step: int) -> bool {
        &&& self.batches() > 0
        &&& self.epochs * self.batches() <= usize::MAX
        &&& step < self.target()
    }

    /// The epoch of a step.
    pub open spec fn epoch_of(self, step: int) -> int {
        step / self.batches()
    }

    /// The place of a step in its epoch.
    pub open spec fn batch_index(self, step: int) -> int {
        step % self.batches()
    }

    /// What a step trains on, where the rows are in the order of the epoch `order`.
    pub open spec fn planned(self, step: int, order: Option<usize>) -> EpochStep {
        EpochStep {
            epoch: self.epoch_of(step) as usize,
            batch_index: self.batch_index(step) as usize,
            reorder: order != Some(self.epoch_of(step) as usize),
            first_row: (self.batch_index(step) * self.batch_size) as usize,
            end_row: (self.batch_index(step) * self.batch_size + self.batch_size) as usize,
        }
    }

    /// What follows the training of a step.
    pub open spec fn marked(self, step: int) -> EpochMarks {
        EpochMarks {
            log: step == 0 || (step + 1) % (self.log_every as int) == 0,
            save: self.save_every > 0 && (step + 1) % (self.save_every as int) == 0,
        }
    }
}

proof fn lemma_step_in_range(settings: EpochSettings, step: int)
    requires
        settings.well_formed(),
        settings.batches() > 0,
        0 <= step <= usize::MAX,
    ensures
        0 <= settings.epoch_of(step) <= step,
        0 <= settings.batch_index(step) < settings.batches(),
        settings.epoch_of(step) * settings.batches() + settings.batch_index(step) == step,
        0 <= settings.batch_index(step) * settings.batch_size,
        settings.batch_index(step) * settings.batch_size + settings.batch_size <= settings.rows,
{
    let batches = settings.batches();
    let index = settings.batch_index(step);
    let size = settings.batch_size as int;
    lemma_batch_bounds(settings.rows as int, size);
    lemma_batch_bounds(step, batches);
    lemma_fundamental_div_mod(step, batches);
    lemma_mod_bound(step, batches);
    assert(settings.epoch_of(step) * batches == batches * (step / batches)) by (nonlinear_arith)
        requires
            settings.epoch_of(step) == step / batches,
    ;
    assert(0 <= index * size && index * size + size <= batches * size) by (nonlinear_arith)
        requires
            0 <= index < batches,
            size > 0,
    ;
}

/// A run on its way to its target.
#[derive(Clone, Copy, PartialEq, Eq, Structural, Debug)]
pub struct EpochRun {
    pub settings: EpochSettings,
    pub batches: usize,
    pub target: usize,
    /// The steps that are trained.
    pub global_step: usize,
    /// The epoch of the step trained last, or of the first step.
    pub last_epoch: usize,
    /// The place in its epoch of the step trained last, or of the first step.
    pub last_batch_index: usize,
    /// The epoch whose order the rows are in.
    pub order: Option<usize>,
}

impl EpochRun {
    /// What holds between the calls of a run.
    pub open spec fn well_formed(self) -> bool {
        &&& self.settings.well_formed()
        &&& self.batches == self.settings.batches()
        &&& self.batches > 0
        &&& self.target == self.settings.target()
        &&& self.global_step <= self.target
    }

    /// Takes up a run at step `start_step`, which is zero for a new one.
    pub fn start(settings: EpochSettings, start_step: usize) -> (result: Result<EpochRun, EpochError>)
        requires
            settings.well_formed(),
        ensures
            result is Ok <==> settings.can_begin_at(start_step as int),
            match result {
                Ok(run) => {
                    &&& settings.batches() > 0
                    &&& settings.epochs * settings.batches() <= usize::MAX
                    &&& start_step < settings.target()
                    &&& run.well_formed()
                    &&& run.settings == settings
                    &&& run.global_step == start_step
                    &&& run.last_epoch == settings.epoch_of(start_step as int)
                    &&& run.last_batch_index == settings.batch_index(start_step as int)
                    &&& run.order is None
                },
                Err(EpochError::TooFewRows) => settings.batches() == 0,
                Err(EpochError::StepsOverflow) => settings.batches() > 0 && settings.epochs
                    * settings.batches() > usize::MAX,
                Err(EpochError::AtTarget { start, target }) => {
                    &&& settings.batches() > 0
                    &&& settings.epochs * settings.batches() <= usize::MAX
                    &&& start == start_step
                    &&& target == settings.target()
                    &&& start >= target
                },
            },
    {
        proof {
            lemma_batch_bounds(settings.rows as int, settings.batch_size as int);
        }
        let batches: usize = match batches_per_epoch(settings.rows, settings.batch_size) {
            Ok(batches) => batches,
            Err(error) => {
                return Err(error);
            },
        };
        let target: usize = match requested_steps(settings.epochs, batches, settings.max_steps) {
            Ok(target) => target,
            Err(_) => {
                return Err(EpochError::StepsOverflow);
            },
        };
        if start_step >= target {
            return Err(EpochError::AtTarget { start: start_step, target });
        }
        Ok(
            EpochRun {
                settings,
                batches,
                target,
                global_step: start_step,
                last_epoch: start_step / batches,
                last_batch_index: start_step % batches,
                order: None,
            },
        )
    }

    /// Plans the next step, or nothing where the target is reached.
    pub fn next(&mut self) -> (plan: Option<EpochStep>)
        requires
            old(self).well_formed(),
        ensures
            final(self).well_formed(),
            old(self).global_step == old(self).target ==> plan is None && *final(self) == *old(
                self,
            ),
            old(self).global_step < old(self).target ==> {
                let step = old(self).global_step as int;
                &&& plan == Some(old(self).settings.planned(step, old(self).order))
                &&& *final(self) == (EpochRun {
                    order: Some(old(self).settings.epoch_of(step) as usize),
                    ..*old(self)
                })
            },
    {
        if self.global_step >= self.target {
            return None;
        }
        let step: usize = self.global_step;
        proof {
            lemma_step_in_range(self.settings, step as int);
        }
        let epoch: usize = step / self.batches;
        let batch_index: usize = step % self.batches;
        let reorder = match self.order {
            Some(order) => order != epoch,
            None => true,
        };
        let first_row: usize = batch_index * self.settings.batch_size;
        self.order = Some(epoch);
        Some(
            EpochStep {
                epoch,
                batch_index,
                reorder,
                first_row,
                end_row: first_row + self.settings.batch_size,
            },
        )
    }

    /// Counts a trained step and tells what follows it.
    pub fn trained(&mut self) -> (marks: EpochMarks)
        requires
            old(self).well_formed(),
            old(self).global_step < old(self).target,
        ensures
            final(self).well_formed(),
            marks == old(self).settings.marked(old(self).global_step as int),
            *final(self) == (EpochRun {
                global_step: (old(self).global_step + 1) as usize,
                last_epoch: old(self).settings.epoch_of(old(self).global_step as int) as usize,
                last_batch_index: old(self).settings.batch_index(
                    old(self).global_step as int,
                ) as usize,
                ..*old(self)
            }),
    {
        let step: usize = self.global_step;
        proof {
            lemma_step_in_range(self.settings, step as int);
        }
        self.last_epoch = step / self.batches;
        self.last_batch_index = step % self.batches;
        let done: usize = step + 1;
        self.global_step = done;
        let log = done == 1 || done % self.settings.log_every == 0;
        let save = self.settings.save_every > 0 && done % self.settings.save_every == 0;
        EpochMarks { log, save }
    }
}

/// A step's rows are a full batch of the epoch's rows.
pub proof fn law_steps_train_full_batches(
    settings: EpochSettings,
    step: int,
    order: Option<usize>,
)
    requires
        settings.well_formed(),
        settings.batches() > 0,
        0 <= step <= usize::MAX,
    ensures
        settings.planned(step, order).end_row - settings.planned(step, order).first_row
            == settings.batch_size,
        settings.planned(step, order).end_row <= settings.rows,
{
    lemma_step_in_range(settings, step);
}

/// A run begins only where its rows fill a batch and a step is left before its target, and where it
/// can begin at a step it can begin at every earlier one.
pub proof fn law_runs_begin_before_their_target(settings: EpochSettings, step: int)
    requires
        settings.well_formed(),
        step >= 0,
    ensures
        settings.rows < settings.batch_size ==> !settings.can_begin_at(step),
        step >= settings.epochs * settings.batches() ==> !settings.can_begin_at(step),
        settings.max_steps matches Some(limit) && step >= limit ==> !settings.can_begin_at(step),
        settings.can_begin_at(step) ==> settings.can_begin_at(step - 1),
{
    lemma_batch_bounds(settings.rows as int, settings.batch_size as int);
}

/// An epoch has as many batches as its rows fill; the rows that are left over fill no other.
pub proof fn law_epochs_have_all_full_batches(settings: EpochSettings)
    requires
        settings.well_formed(),
    ensures
        settings.batches() * settings.batch_size <= settings.rows,
        settings.rows < (settings.batches() + 1) * settings.batch_size,
        settings.batches() == 0 <==> settings.rows < settings.batch_size,
{
    let rows = settings.rows as int;
    let size = settings.batch_size as int;
    lemma_batch_bounds(rows, size);
    vstd::arithmetic::div_mod::lemma_fundamental_div_mod(rows, size);
    vstd::arithmetic::div_mod::lemma_mod_bound(rows, size);
    let batches = settings.batches();
    assert(size * batches == batches * size) by (nonlinear_arith);
    assert((batches + 1) * size == batches * size + size) by (nonlinear_arith);
}

/// A run begins with the first batch of the first epoch. The batches of an epoch follow each other
/// without a gap, and behind the last of them the next epoch begins. The rows are put in order anew
/// exactly where they are not in the order of the epoch.
#[verifier::spinoff_prover]
pub proof fn law_batches_follow_each_other(
    settings: EpochSettings,
    step: int,
    order: Option<usize>,
)
    requires
        settings.well_formed(),
        settings.batches() > 0,
        0 <= step < usize::MAX,
    ensures
        ({
            let plan = settings.planned(step, order);
            let next = settings.planned(step + 1, order);
            &&& step == 0 ==> plan.epoch == 0 && plan.batch_index == 0
            &&& plan.epoch * settings.batches() + plan.batch_index == step
            &&& plan.batch_index < settings.batches()
            &&& plan.batch_index == 0 ==> plan.first_row == 0
            &&& plan.batch_index + 1 < settings.batches() ==> next.epoch == plan.epoch
                && next.batch_index == plan.batch_index + 1 && next.first_row == plan.end_row
            &&& plan.batch_index + 1 == settings.batches() ==> next.epoch == plan.epoch + 1
                && next.batch_index == 0
            &&& plan.reorder <==> order != Some(plan.epoch)
        }),
{
    lemma_step_in_range(settings, step);
    lemma_step_in_range(settings, step + 1);
    let batches = settings.batches();
    let size = settings.batch_size as int;
    let epoch = settings.epoch_of(step);
    let index = settings.batch_index(step);
    assert(index == 0 ==> index * size == 0) by (nonlinear_arith);
    if step == 0 {
        vstd::arithmetic::div_mod::lemma_fundamental_div_mod_converse(0, batches, 0, 0);
    }
    if index + 1 < batches {
        vstd::arithmetic::div_mod::lemma_fundamental_div_mod_converse(
            step + 1,
            batches,
            epoch,
            index + 1,
        );
        assert((index + 1) * size == index * size + size) by (nonlinear_arith);
    } else {
        assert((epoch + 1) * batches == epoch * batches + batches) by (nonlinear_arith);
        vstd::arithmetic::div_mod::lemma_fundamental_div_mod_converse(
            step + 1,
            batches,
            epoch + 1,
            0,
        );
    }
}

/// The first step is logged, and besides it every `log_every`-th and no other; every `save_every`-th
/// is saved and no other, and none where that is zero.
#[verifier::spinoff_prover]
pub proof fn law_steps_are_logged_and_saved_at_intervals(
    settings: EpochSettings,
    count: int,
    step: int,
)
    requires
        settings.well_formed(),
        count >= 0,
        step >= 0,
    ensures
        settings.marked(0).log,
        count > 0 ==> settings.marked(count * settings.log_every - 1).log,
        step > 0 && count * settings.log_every < step + 1 < (count + 1) * settings.log_every
            ==> !settings.marked(step).log,
        settings.save_every == 0 ==> !settings.marked(step).save,
        count > 0 && settings.save_every > 0 ==> settings.marked(
            count * settings.save_every - 1,
        ).save,
        count * settings.save_every < step + 1 < (count + 1) * settings.save_every
            ==> !settings.marked(step).save,
{
    let log = settings.log_every as int;
    let save = settings.save_every as int;
    lemma_interval(log, count, step + 1);
    if save > 0 {
        lemma_interval(save, count, step + 1);
    }
}

proof fn lemma_interval(every: int, count: int, done: int)
    requires
        every > 0,
        count >= 0,
    ensures
        (count * every) % every == 0,
        count * every < done < (count + 1) * every ==> done % every != 0,
{
    vstd::arithmetic::div_mod::lemma_fundamental_div_mod_converse(count * every, every, count, 0);
    assert((count + 1) * every == count * every + every) by (nonlinear_arith);
    if count * every < done < (count + 1) * every {
        vstd::arithmetic::div_mod::lemma_fundamental_div_mod_converse(
            done,
            every,
            count,
            done - count * every,
        );
    }
}

/// No row of an epoch's order is trained twice in that epoch.
pub proof fn law_epoch_trains_no_row_twice(settings: EpochSettings, first: int, second: int)
    requires
        settings.well_formed(),
        settings.batches() > 0,
        0 <= first < second <= usize::MAX,
        settings.epoch_of(first) == settings.epoch_of(second),
    ensures
        settings.planned(first, None).end_row <= settings.planned(second, None).first_row,
{
    lemma_step_in_range(settings, first);
    lemma_step_in_range(settings, second);
    let earlier = settings.batch_index(first);
    let later = settings.batch_index(second);
    let size = settings.batch_size as int;
    assert(earlier * size + size <= later * size) by (nonlinear_arith)
        requires
            earlier + 1 <= later,
            size > 0,
    ;
}

/// The epoch whose order the rows are in when a step is trained.
pub open spec fn order_at(plan: EpochStep, order: Option<usize>) -> Option<usize> {
    if plan.reorder {
        Some(plan.epoch)
    } else {
        order
    }
}

/// A run that is taken up at a step trains it on the same rows, in the order of the same epoch, as
/// one that got there without a break.
pub proof fn law_resumed_steps_are_the_same(
    settings: EpochSettings,
    step: int,
    order: Option<usize>,
)
    requires
        settings.well_formed(),
        settings.batches() > 0,
        0 <= step <= usize::MAX,
    ensures
        ({
            let fresh = settings.planned(step, None);
            let going = settings.planned(step, order);
            &&& fresh.epoch == going.epoch
            &&& fresh.batch_index == going.batch_index
            &&& fresh.first_row == going.first_row
            &&& fresh.end_row == going.end_row
            &&& order_at(fresh, None) == order_at(going, order)
            &&& order_at(fresh, None) == Some(fresh.epoch)
        }),
{
}

/// Checks the loss of a step; a loss that is no finite number names the step, counted from one.
pub fn ensure_finite_loss(step: usize, loss: Score) -> (result: Result<(), usize>)
    ensures
        result == if loss.finite() {
            Ok::<(), usize>(())
        } else {
            Err::<(), usize>(step)
        },
{
    if loss.is_finite() {
        Ok(())
    } else {
        Err(step)
    }
}

/// The files of a checkpoint: the weights and the optimizer's state.
#[derive(Debug)]
pub struct CheckpointFiles {
    pub weights: String,
    pub optimizer: String,
}

/// The name of the weights saved at a step.
pub open spec fn checkpoint_name(step: nat) -> Seq<char> {
    "checkpoint-step-"@ + padded_decimal(step, 8) + ".safetensors"@
}

/// The name of the optimizer's state saved at a step.
pub open spec fn optimizer_name(step: nat) -> Seq<char> {
    "optimizer-step-"@ + padded_decimal(step, 8) + ".safetensors"@
}

/// Names the files of the checkpoint of a step.
pub fn checkpoint_files(step: usize) -> (files: CheckpointFiles)
    ensures
        files.weights@ == checkpoint_name(step as nat),
        files.optimizer@ == optimizer_name(step as nat),
{
    let digits = format_padded(step as u64, 8);
    let weights = "checkpoint-step-".to_owned().concat(digits.as_str()).concat(".safetensors");
    let optimizer = "optimizer-step-".to_owned().concat(digits.as_str()).concat(".safetensors");
    CheckpointFiles { weights, optimizer }
}

/// The step can be read back from the name of its checkpoint.
pub proof fn law_checkpoint_reads_back(step: nat)
    requires
        step <= usize::MAX,
    ensures
        crate::eval_drone_checkpoints::checkpoint_step(checkpoint_name(step)) == Some(step),
{
    crate::eval_drone_checkpoints::law_checkpoint_names_carry_their_step(step);
}

/// A setting on which a run that is taken up must agree with the saved one.
pub trait Setting {
    /// The two values agree.
    spec fn agrees(&self, other: &Self) -> bool;

    /// Whether the two values agree.
    fn is_same(&self, other: &Self) -> (answer: bool)
        ensures
            answer == self.agrees(other),
    ;
}

impl Setting for usize {
    open spec fn agrees(&self, other: &Self) -> bool {
        *self == *other
    }

    fn is_same(&self, other: &Self) -> (answer: bool) {
        *self == *other
    }
}

impl Setting for u64 {
    open spec fn agrees(&self, other: &Self) -> bool {
        *self == *other
    }

    fn is_same(&self, other: &Self) -> (answer: bool) {
        *self == *other
    }
}

impl Setting for bool {
    open spec fn agrees(&self, other: &Self) -> bool {
        *self == *other
    }

    fn is_same(&self, other: &Self) -> (answer: bool) {
        *self == *other
    }
}

impl Setting for String {
    open spec fn agrees(&self, other: &Self) -> bool {
        self@ == other@
    }

    fn is_same(&self, other: &Self) -> (answer: bool) {
        *self == *other
    }
}

impl Setting for Score {
    /// Nothing agrees with what is not a number.
    open spec fn agrees(&self, other: &Self) -> bool {
        match (self, other) {
            (Score::Key(left), Score::Key(right)) => left == right,
            _ => false,
        }
    }

    fn is_same(&self, other: &Self) -> (answer: bool) {
        match (self, other) {
            (Score::Key(left), Score::Key(right)) => *left == *right,
            _ => false,
        }
    }
}

/// Checks that a setting agrees with the saved one; the error gives the setting's name.
pub fn ensure_eq<T: Setting>(name: &'static str, current: &T, saved: &T) -> (result: Result<
    (),
    &'static str,
>)
    ensures
        result == if current.agrees(saved) {
            Ok::<(), &'static str>(())
        } else {
            Err::<(), &'static str>(name)
        },
{
    if current.is_same(saved) {
        Ok(())
    } else {
        Err(name)
    }
}

/// Checks that a path agrees with the saved one; the error gives the setting's name.
pub fn ensure_same_path(name: &'static str, current: &str, saved: &str) -> (result: Result<
    (),
    &'static str,
>)
    ensures
        result == if same_path(current@, saved@) {
            Ok::<(), &'static str>(())
        } else {
            Err::<(), &'static str>(name)
        },
{
    if is_same_path(current, saved) {
        Ok(())
    } else {
        Err(name)
    }
}

/// Checks that an optional path agrees with the saved one; the error gives the setting's name.
pub fn ensure_same_optional_path(
    name: &'static str,
    current: &Option<String>,
    saved: &Option<String>,
) -> (result: Result<(), &'static str>)
    ensures
        result == if same_optional_path(*current, *saved) {
            Ok::<(), &'static str>(())
        } else {
            Err::<(), &'static str>(name)
        },
{
    if is_same_optional_path(current, saved) {
        Ok(())
    } else {
        Err(name)
    }
}

/// Settings agree where they are equal, texts where they read the same, and numbers where they are
/// numbers and equal.
pub proof fn law_settings_agree_where_they_are_equal(
    size: usize,
    other_size: usize,
    seed: u64,
    other_seed: u64,
    flag: bool,
    other_flag: bool,
    text: String,
    other_text: String,
    key: i64,
    other_key: i64,
)
    ensures
        size.agrees(&other_size) <==> size == other_size,
        seed.agrees(&other_seed) <==> seed == other_seed,
        flag.agrees(&other_flag) <==> flag == other_flag,
        text.agrees(&other_text) <==> text@ == other_text@,
        Score::Key(key).agrees(&Score::Key(other_key)) <==> key == other_key,
        !Score::NotANumber.agrees(&Score::NotANumber),
        !Score::NotANumber.agrees(&Score::Key(key)),
        !Score::Key(key).agrees(&Score::NotANumber),
{
}

/// The files of a checkpoint carry its step in eight digits or more, behind what they hold.
pub proof fn law_checkpoint_files_are_named_alike(step: nat)
    ensures
        crate::text::begins_with(checkpoint_name(step), "checkpoint-step-"@),
        crate::text::begins_with(optimizer_name(step), "optimizer-step-"@),
        checkpoint_name(step).skip("checkpoint-step-"@.len() as int) == optimizer_name(step).skip(
            "optimizer-step-"@.len() as int,
        ),
        crate::text::ends_in(checkpoint_name(step), ".safetensors"@),
        checkpoint_name(step).len() >= "checkpoint-step-"@.len() + 8 + ".safetensors"@.len(),
{
    let digits = padded_decimal(step, 8);
    let tail = ".safetensors"@;
    crate::text::law_padding_fills_the_width(step, 8);
    assert(checkpoint_name(step) =~= "checkpoint-step-"@ + (digits + tail));
    assert(optimizer_name(step) =~= "optimizer-step-"@ + (digits + tail));
    crate::text::law_texts_begin_and_end("checkpoint-step-"@, digits + tail, tail);
    crate::text::law_texts_begin_and_end("optimizer-step-"@, digits + tail, tail);
    crate::text::law_texts_begin_and_end("checkpoint-step-"@ + digits, tail, tail);
}

} // verus!
