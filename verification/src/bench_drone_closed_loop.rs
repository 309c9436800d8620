//! Closed-loop control by short plans inside the world model.

use crate::paths::{joined, stored};
use vstd::prelude::*;

verus! {

/// The row that the tasks start from by default.
pub const DEFAULT_ROW: usize = 40847;

/// What lies between the seeds of two neighbouring tasks.
pub const SEED_STRIDE: u64 = 1003;

/// The settings of the command line.
#[derive(Clone, Copy, PartialEq, Eq, Structural, Debug)]
pub struct CheckedArgs {
    pub history_steps: usize,
    pub horizon: usize,
    pub samples: usize,
    pub elites: usize,
    pub keep_elites: usize,
    pub iterations: usize,
    pub loop_steps: usize,
}

impl CheckedArgs {
    /// The message of the first check that fails.
    pub open spec fn refusal(self) -> Option<Seq<char>> {
        if self.history_steps < 2 {
            Some("--history-steps must be at least two"@)
        } else if self.horizon == 0 {
            Some("--horizon must be greater than zero"@)
        } else if self.samples == 0 {
            Some("--samples must be greater than zero"@)
        } else if self.elites < 2 {
            Some("--elites must be at least two"@)
        } else if self.elites > self.samples {
            Some("--elites must be <= --samples"@)
        } else if self.keep_elites > self.elites {
            Some("--keep-elites must be <= --elites"@)
        } else if self.iterations == 0 {
            Some("--iterations must be greater than zero"@)
        } else if self.loop_steps == 0 {
            Some("--loop-steps must be greater than zero"@)
        } else {
            None
        }
    }
}

/// Checks the settings of the command line, in order.
pub fn validate_args(args: &CheckedArgs) -> (result: Result<(), &'static str>)
    ensures
        match result {
            Ok(()) => args.refusal() is None,
            Err(message) => args.refusal() == Some(message@),
        },
{
    if args.history_steps < 2 {
        return Err("--history-steps must be at least two");
    }
    if args.horizon == 0 {
        return Err("--horizon must be greater than zero");
    }
    if args.samples == 0 {
        return Err("--samples must be greater than zero");
    }
    if args.elites < 2 {
        return Err("--elites must be at least two");
    }
    if args.elites > args.samples {
        return Err("--elites must be <= --samples");
    }
    if args.keep_elites > args.elites {
        return Err("--keep-elites must be <= --elites");
    }
    if args.iterations == 0 {
        return Err("--iterations must be greater than zero");
    }
    if args.loop_steps == 0 {
        return Err("--loop-steps must be greater than zero");
    }
    Ok(())
}

/// Settings that pass keep at most as many elites as there are samples.
pub proof fn law_kept_elites_are_samples(args: CheckedArgs)
    requires
        args.refusal() is None,
    ensures
        args.keep_elites <= args.elites <= args.samples,
{
}

/// The row that is started at.
pub open spec fn start_of(requested: Option<usize>) -> usize {
    match requested {
        Some(given) => given,
        None => DEFAULT_ROW,
    }
}

/// The row that is started at has enough rows behind it.
pub open spec fn starts_in_data(requested: Option<usize>, history_steps: usize, rows: usize) -> bool {
    start_of(requested) + history_steps < rows
}

/// The row that the tasks start from: the requested one or the default. A row without enough rows
/// behind it is the error.
pub fn start_row(requested: Option<usize>, history_steps: usize, rows: usize) -> (result: Result<
    usize,
    usize,
>)
    requires
        requested matches Some(row) ==> row + history_steps <= usize::MAX,
        requested is None ==> DEFAULT_ROW + history_steps <= usize::MAX,
    ensures
        result is Ok <==> starts_in_data(requested, history_steps, rows),
        result matches Ok(row) ==> row == start_of(requested),
        result matches Err(row) ==> row == start_of(requested),
        ({
            let row = match requested {
                Some(given) => given,
                None => DEFAULT_ROW,
            };
            result == if row + history_steps < rows {
                Ok::<usize, usize>(row)
            } else {
                Err::<usize, usize>(row)
            }
        }),
{
    let row: usize = match requested {
        Some(given) => given,
        None => DEFAULT_ROW,
    };
    if row + history_steps < rows {
        Ok(row)
    } else {
        Err(row)
    }
}

/// A start row is taken as it was asked for, or by default, exactly where it has its history and a row
/// more in the data.
pub proof fn law_start_rows_have_their_history(
    requested: Option<usize>,
    history_steps: usize,
    rows: usize,
)
    ensures
        requested matches Some(row) ==> start_of(requested) == row,
        requested is None ==> start_of(requested) == 40847,
        starts_in_data(requested, history_steps, rows) <==> start_of(requested) + history_steps + 1
            <= rows,
{
}

/// What a task asks for over one horizon.
#[derive(Clone, Copy, PartialEq, Eq, Structural, Debug)]
pub enum TaskTarget {
    Hold,
    /// The target distance along the body's axis `axis`.
    Displace { axis: usize },
    /// The target angle about the body's vertical axis.
    Yaw,
}

/// A task of the benchmark.
#[derive(Clone, Copy, Debug)]
pub struct TaskSpec {
    pub name: &'static str,
    pub target: TaskTarget,
}

/// The names of the tasks.
pub open spec fn task_names() -> Seq<Seq<char>> {
    seq!["hold"@, "body_x"@, "body_y"@, "body_z"@, "yaw_z"@]
}

/// The targets of the tasks.
pub open spec fn task_targets() -> Seq<TaskTarget> {
    seq![
        TaskTarget::Hold,
        TaskTarget::Displace { axis: 0 },
        TaskTarget::Displace { axis: 1 },
        TaskTarget::Displace { axis: 2 },
        TaskTarget::Yaw,
    ]
}

/// Lists the tasks.
pub fn default_tasks() -> (tasks: Vec<TaskSpec>)
    ensures
        tasks@.len() == 5,
        forall|i: int|
            0 <= i < 5 ==> {
                &&& (#[trigger] tasks@[i]).name@ == task_names()[i]
                &&& tasks@[i].target == task_targets()[i]
            },
{
    let mut tasks: Vec<TaskSpec> = Vec::new();
    tasks.push(TaskSpec { name: "hold", target: TaskTarget::Hold });
    tasks.push(TaskSpec { name: "body_x", target: TaskTarget::Displace { axis: 0 } });
    tasks.push(TaskSpec { name: "body_y", target: TaskTarget::Displace { axis: 1 } });
    tasks.push(TaskSpec { name: "body_z", target: TaskTarget::Displace { axis: 2 } });
    tasks.push(TaskSpec { name: "yaw_z", target: TaskTarget::Yaw });
    tasks
}

/// The targets of a task over one horizon, made of the requested distance and angle and of zeros.
pub struct TargetVectors<T> {
    pub position: [T; 3],
    pub rotation: [T; 3],
}

/// The component of a position target along an axis.
pub open spec fn position_at<T>(target: TaskTarget, axis: int, zero: T, distance: T) -> T {
    if target == (TaskTarget::Displace { axis: axis as usize }) {
        distance
    } else {
        zero
    }
}

/// A task displaces the vehicle by the distance along its own axis and along no other, and one that
/// does not displace it leaves every axis as it is.
pub proof fn law_tasks_displace_along_one_axis<T>(
    target: TaskTarget,
    axis: usize,
    zero: T,
    distance: T,
)
    requires
        axis < 3,
    ensures
        target matches TaskTarget::Displace { axis: own } ==> {
            &&& own == axis ==> position_at(target, axis as int, zero, distance) == distance
            &&& own != axis ==> position_at(target, axis as int, zero, distance) == zero
        },
        target == TaskTarget::Hold || target == TaskTarget::Yaw ==> position_at(
            target,
            axis as int,
            zero,
            distance,
        ) == zero,
{
}

/// The tasks are to hold, to move along each axis in turn and to turn, under the names of what they
/// do.
pub proof fn law_tasks_are_named_after_their_targets(axis: usize)
    requires
        axis < 3,
    ensures
        task_names().len() == 5,
        task_targets().len() == 5,
        task_names()[0] == "hold"@,
        task_targets()[0] == TaskTarget::Hold,
        task_names()[1 + axis] == "body_"@ + (if axis == 0 {
            "x"@
        } else if axis == 1 {
            "y"@
        } else {
            "z"@
        }),
        task_targets()[1 + axis] == (TaskTarget::Displace { axis }),
        task_names()[4] == "yaw_z"@,
        task_targets()[4] == TaskTarget::Yaw,
{
    reveal_strlit("body_");
    reveal_strlit("x");
    reveal_strlit("y");
    reveal_strlit("z");
    reveal_strlit("body_x");
    reveal_strlit("body_y");
    reveal_strlit("body_z");
    assert("body_x"@ =~= "body_"@ + "x"@);
    assert("body_y"@ =~= "body_"@ + "y"@);
    assert("body_z"@ =~= "body_"@ + "z"@);
}

/// Writes out the targets of a task.
pub fn target_vectors<T: Copy>(target: TaskTarget, zero: T, distance: T, yaw: T) -> (vectors:
    TargetVectors<T>)
    ensures
        vectors.position@ == seq![
            position_at(target, 0, zero, distance),
            position_at(target, 1, zero, distance),
            position_at(target, 2, zero, distance),
        ],
        vectors.rotation@ == seq![
            zero,
            zero,
            if target == TaskTarget::Yaw {
                yaw
            } else {
                zero
            },
        ],
{
    let (x, y, z, turn) = match target {
        TaskTarget::Hold => (zero, zero, zero, zero),
        TaskTarget::Displace { axis } => if axis == 0 {
            (distance, zero, zero, zero)
        } else if axis == 1 {
            (zero, distance, zero, zero)
        } else if axis == 2 {
            (zero, zero, distance, zero)
        } else {
            (zero, zero, zero, zero)
        },
        TaskTarget::Yaw => (zero, zero, zero, yaw),
    };
    let position = [x, y, z];
    let rotation = [zero, zero, turn];
    assert(position@ =~= seq![x, y, z]);
    assert(rotation@ =~= seq![zero, zero, turn]);
    TargetVectors { position, rotation }
}

/// The planner's seed for a task.
pub fn task_seed(seed: u64, task: usize) -> (derived: u64)
    requires
        seed + task * SEED_STRIDE <= u64::MAX,
    ensures
        derived - seed == 1003 * task,
        derived == seed + task * SEED_STRIDE,
{
    seed + task as u64 * SEED_STRIDE
}

/// Different tasks get different seeds.
pub proof fn law_task_seeds_differ(seed: int, first: int, second: int)
    requires
        first != second,
    ensures
        seed + first * SEED_STRIDE != seed + second * SEED_STRIDE,
{
}

/// A task on its way: one plan and one step of its first action after the other.
#[derive(Clone, Copy, PartialEq, Eq, Structural, Debug)]
pub struct TaskRun {
    pub loop_steps: usize,
    pub steps_done: usize,
    /// The iterations of all plans so far.
    pub total_iterations: usize,
}

impl TaskRun {
    /// What holds between the calls of a run.
    pub open spec fn well_formed(self) -> bool {
        self.steps_done <= self.loop_steps
    }

    /// A task that has not begun.
    pub fn new(loop_steps: usize) -> (run: TaskRun)
        ensures
            run == (TaskRun { loop_steps, steps_done: 0, total_iterations: 0 }),
            run.well_formed(),
    {
        TaskRun { loop_steps, steps_done: 0, total_iterations: 0 }
    }

    /// The step that is due.
    pub open spec fn step_due(self) -> Option<usize> {
        if self.steps_done < self.loop_steps {
            Some(self.steps_done)
        } else {
            None
        }
    }

    /// The task behind a step whose plan took `completed` iterations.
    pub open spec fn after_plan(self, completed: usize) -> TaskRun {
        TaskRun {
            loop_steps: self.loop_steps,
            steps_done: (self.steps_done + 1) as usize,
            total_iterations: (self.total_iterations + completed) as usize,
        }
    }

    /// The step to plan next, or nothing where the task has ended.
    pub fn next(&self) -> (step: Option<usize>)
        ensures
            step == self.step_due(),
            step == if self.steps_done < self.loop_steps {
                Some(self.steps_done)
            } else {
                None
            },
    {
        if self.steps_done < self.loop_steps {
            Some(self.steps_done)
        } else {
            None
        }
    }

    /// Counts a step whose plan took `completed` iterations.
    pub fn executed(&mut self, completed: usize)
        requires
            old(self).well_formed(),
            old(self).steps_done < old(self).loop_steps,
            old(self).total_iterations + completed <= usize::MAX,
        ensures
            final(self).well_formed(),
            *final(self) == old(self).after_plan(completed),
            *final(self) == (TaskRun {
                loop_steps: old(self).loop_steps,
                steps_done: (old(self).steps_done + 1) as usize,
                total_iterations: (old(self).total_iterations + completed) as usize,
            }),
    {
        self.steps_done = self.steps_done + 1;
        self.total_iterations = self.total_iterations + completed;
    }
}

/// A task runs for all its steps, counted from zero, and its iterations are those of all its plans.
pub proof fn law_tasks_run_for_all_their_steps(run: TaskRun, completed: usize)
    requires
        run.well_formed(),
        run.total_iterations + completed <= usize::MAX,
    ensures
        run.step_due() is None <==> run.steps_done == run.loop_steps,
        run.step_due() matches Some(step) ==> {
            &&& step == run.steps_done
            &&& run.after_plan(completed).steps_done == run.steps_done + 1
            &&& run.after_plan(completed).loop_steps == run.loop_steps
            &&& run.after_plan(completed).total_iterations - run.total_iterations == completed
        },
{
}

/// The pairs of neighbouring actions by which the smoothness of a candidate is judged; a candidate
/// of a single action is not judged by it.
pub fn smoothness_pairs(horizon: usize) -> (pairs: Option<usize>)
    ensures
        pairs == if horizon > 1 {
            Some((horizon - 1) as usize)
        } else {
            None
        },
{
    if horizon > 1 {
        Some(horizon - 1)
    } else {
        None
    }
}

/// The data set that is used by default.
pub fn default_dataset_dir(home: Option<&str>) -> (path: String)
    ensures
        path@ == stored(home, "le-wm-nv-data"@, "drone-racing-autonomous-100hz"@),
{
    crate::bench_drone_rollout::default_dataset_dir(home)
}

/// The run whose model is used by default.
pub fn default_run_dir(home: Option<&str>) -> (path: String)
    ensures
        path@ == stored(home, "le-wm-nv-runs"@, "drone-state-lewm-all-data-20260612-235255"@),
{
    crate::bench_drone_rollout::default_run_dir(home)
}

/// The weights that are used by default.
pub fn default_weights(home: Option<&str>) -> (path: String)
    ensures
        path@ == joined(
            stored(home, "le-wm-nv-runs"@, "drone-state-lewm-all-data-20260612-235255"@),
            "final.safetensors"@,
        ),
{
    crate::bench_drone_rollout::default_weights(home)
}

/// The model's configuration that is read by default.
pub fn default_config(home: Option<&str>) -> (path: String)
    ensures
        path@ == joined(
            stored(home, "le-wm-nv-runs"@, "drone-state-lewm-all-data-20260612-235255"@),
            "model-config.json"@,
        ),
{
    crate::bench_drone_rollout::default_config(home)
}

/// The file that the report is written to by default.
pub fn default_output() -> (path: String)
    ensures
        path@ == "target/drone-eval/closed-loop.json"@,
{
    "target/drone-eval/closed-loop.json".to_owned()
}

/// Settings are accepted exactly where each of them is in its range.
pub proof fn law_accepted_settings_are_in_range(args: CheckedArgs)
    ensures
        args.refusal() is None <==> {
            &&& args.history_steps >= 2
            &&& args.horizon > 0
            &&& 2 <= args.elites <= args.samples
            &&& args.keep_elites <= args.elites
            &&& args.iterations > 0
            &&& args.loop_steps > 0
        },
{
}

} // verus!
