//! Evaluation of the SkyJEPA model by horizon.

use crate::batching::{batch_of, first_batches, limited_batches, limited_chunks, min_of};
use crate::paths::{stored, stored_dir};
use vstd::prelude::*;

verus! {

/// The part of the data that is evaluated.
#[derive(Clone, Copy, PartialEq, Eq, Structural, Debug)]
pub enum EvalSplit {
    Validation,
    Test,
}

impl EvalSplit {
    /// The name of the part in the report.
    pub fn label(self) -> (name: &'static str)
        ensures
            name@ == match self {
                EvalSplit::Validation => "validation"@,
                EvalSplit::Test => "test"@,
            },
    {
        match self {
            EvalSplit::Validation => "validation",
            EvalSplit::Test => "test",
        }
    }
}

/// The steps of history and of prediction.
#[derive(Clone, Copy, PartialEq, Eq, Structural, Debug)]
pub struct SequenceSteps {
    pub history_steps: usize,
    pub rollout_steps: usize,
}

/// Checks the batch size of the command line.
pub fn validate_args(batch_size: usize) -> (result: Result<(), &'static str>)
    ensures
        match result {
            Ok(()) => batch_size > 0,
            Err(message) => batch_size == 0 && message@ == "batch_size must be positive"@,
        },
{
    if batch_size == 0 {
        return Err("batch_size must be positive");
    }
    Ok(())
}

/// Checks that the data and the model of a checkpoint have the same steps.
pub fn check_sequence(dataset: SequenceSteps, model: SequenceSteps) -> (result: Result<
    (),
    &'static str,
>)
    ensures
        match result {
            Ok(()) => dataset == model,
            Err(message) => dataset != model && message@
                == "checkpoint dataset/model sequence dimensions disagree"@,
        },
{
    if dataset.history_steps != model.history_steps || dataset.rollout_steps
        != model.rollout_steps {
        return Err("checkpoint dataset/model sequence dimensions disagree");
    }
    Ok(())
}

/// Where the parts of a rollout lie in a window.
#[derive(Clone, Copy, PartialEq, Eq, Structural, Debug)]
pub struct RolloutSlices {
    /// The state that the rollout starts from.
    pub initial: usize,
    /// The first action of the rollout; its transitions' durations start there too.
    pub actions: usize,
    /// The first state that the rollout is compared with.
    pub targets: usize,
    /// The number of actions, transitions and states.
    pub steps: usize,
}

/// Where the parts of a sequence lie that a rollout uses.
pub open spec fn slices_of(steps: SequenceSteps) -> RolloutSlices {
    RolloutSlices {
        initial: (steps.history_steps - 1) as usize,
        actions: (steps.history_steps - 1) as usize,
        targets: steps.history_steps,
        steps: steps.rollout_steps,
    }
}

/// A rollout begins with the last state of the history and its action, and the first state behind the
/// history is its first target.
pub proof fn law_targets_follow_the_initial_state(steps: SequenceSteps)
    requires
        steps.history_steps > 0,
    ensures
        slices_of(steps).initial + 1 == steps.history_steps,
        slices_of(steps).actions == slices_of(steps).initial,
        slices_of(steps).targets == slices_of(steps).initial + 1,
        slices_of(steps).steps == steps.rollout_steps,
{
}

/// Finds the parts of a rollout in a window.
pub fn rollout_slices(steps: SequenceSteps) -> (slices: RolloutSlices)
    requires
        steps.history_steps > 0,
    ensures
        slices == slices_of(steps),
        slices == (RolloutSlices {
            initial: (steps.history_steps - 1) as usize,
            actions: (steps.history_steps - 1) as usize,
            targets: steps.history_steps,
            steps: steps.rollout_steps,
        }),
{
    RolloutSlices {
        initial: steps.history_steps - 1,
        actions: steps.history_steps - 1,
        targets: steps.history_steps,
        steps: steps.rollout_steps,
    }
}

/// The batches of an evaluation and the windows in them.
#[derive(Debug)]
pub struct EvaluationPlan<'a> {
    pub chunks: Vec<&'a [usize]>,
    pub windows: usize,
}

/// Plans an evaluation: the batches, at most `max_batches` of them unless that is zero.
pub fn plan_evaluation(rows: &[usize], batch_size: usize, max_batches: usize) -> (result: Result<
    EvaluationPlan<'_>,
    &'static str,
>)
    requires
        batch_size > 0,
    ensures
        match result {
            Ok(plan) => {
                &&& rows@.len() > 0
                &&& plan.chunks@.len() == limited_batches(
                    rows@.len() as int,
                    batch_size as int,
                    max_batches as int,
                )
                &&& forall|i: int|
                    0 <= i < plan.chunks@.len() ==> (#[trigger] plan.chunks@[i])@ == batch_of(
                        rows@,
                        i,
                        batch_size as int,
                    )
                &&& plan.windows == min_of(
                    plan.chunks@.len() * batch_size,
                    rows@.len() as int,
                )
                &&& plan.windows > 0
                &&& plan.windows == first_batches(
                    rows@,
                    plan.chunks@.len() as int,
                    batch_size as int,
                ).len()
            },
            Err(message) => rows@.len() == 0 && message@
                == "selected SkyJEPA split has no windows"@,
        },
{
    if rows.len() == 0 {
        return Err("selected SkyJEPA split has no windows");
    }
    let chunks = limited_chunks(rows, batch_size, max_batches);
    let total: usize = rows.len();
    let count: usize = chunks.len();
    proof {
        crate::batching::law_batches_reach_all_rows(rows@.len() as int, batch_size as int);
        crate::batching::law_limits_cut_a_pass_short(
            rows@.len() as int,
            batch_size as int,
            max_batches as int,
        );
        crate::batching::law_first_batches_hold_the_first_rows(
            rows@,
            count as int,
            batch_size as int,
        );
        assert(count > 0 ==> count * batch_size > 0) by (nonlinear_arith)
            requires
                batch_size > 0,
        ;
    }
    let windows: usize = match count.checked_mul(batch_size) {
        Some(product) => if product < total {
            product
        } else {
            total
        },
        None => total,
    };
    Ok(EvaluationPlan { chunks, windows })
}

/// The data set that is evaluated by default.
pub fn default_dataset_dir(home: Option<&str>) -> (path: String)
    ensures
        path@ == stored(home, "le-wm-nv-data"@, "skyjepa-domain-randomized-20hz"@),
{
    stored_dir(home, "le-wm-nv-data", "skyjepa-domain-randomized-20hz")
}

/// The checkpoint that is evaluated by default.
pub fn default_checkpoint_dir(home: Option<&str>) -> (path: String)
    ensures
        path@ == stored(home, "le-wm-nv-runs"@, "skyjepa-drone-state18-20hz"@),
{
    stored_dir(home, "le-wm-nv-runs", "skyjepa-drone-state18-20hz")
}

} // verus!
