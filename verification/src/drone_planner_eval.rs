//! Offline evaluation of planners in the latent space of a world model.

use crate::batching::{batch_count, batches_for};
use crate::drone_oracle_eval::{horizons_read, HorizonError};
use crate::order::Score;
use crate::paths::{join, joined, stored, stored_dir};
use crate::text::{decimal, format_decimal, is_size, list_entries, parse_size_list, size_of};
use vstd::prelude::*;

verus! {

/// Combined with the run's seed for the second shuffle of the rows.
pub const SHUFFLED_ROWS_MASK: u64 = 0xBADC_0FFE_E0DD_F00D;

/// Reads a list of horizons: comma-separated positive numbers, which come back in ascending order
/// without repetitions.
pub fn parse_horizons(text: &str) -> (result: Result<Vec<usize>, HorizonError>)
    ensures
        horizons_read(text@, result),
{
    crate::drone_oracle_eval::parse_horizons(text)
}

/// Why a list of rows is refused.
#[derive(PartialEq, Eq, Debug)]
pub enum RowListError {
    /// The entry is no number.
    Invalid(String),
    Empty,
}

/// Reads a list of rows: comma-separated numbers, in the order in which they stand.
pub fn parse_row_list(text: &str) -> (result: Result<Vec<usize>, RowListError>)
    ensures
        ({
            let entries = list_entries(text@);
            match result {
                Ok(rows) => {
                    &&& rows@.len() == entries.len() > 0
                    &&& forall|i: int|
                        0 <= i < entries.len() ==> is_size(#[trigger] entries[i]) && rows@[i]
                            == size_of(entries[i])
                },
                Err(RowListError::Invalid(entry)) => exists|place: int|
                    #[trigger] crate::drone_oracle_eval::first_bad_entry(entries, place)
                        && entries[place] == entry@,
                Err(RowListError::Empty) => entries.len() == 0,
            }
        }),
{
    let ghost entries = list_entries(text@);
    match parse_size_list(text) {
        Ok(rows) => {
            if rows.len() == 0 {
                Err(RowListError::Empty)
            } else {
                Ok(rows)
            }
        },
        Err(entry) => {
            proof {
                let place = choose|i: int|
                    0 <= i < entries.len() && #[trigger] entries[i] == entry@ && !is_size(entry@)
                        && forall|j: int| 0 <= j < i ==> is_size(#[trigger] entries[j]);
                assert(crate::drone_oracle_eval::first_bad_entry(entries, place));
            }
            Err(RowListError::Invalid(entry))
        },
    }
}

/// The batches of one horizon.
pub fn report_batch_count(rows: usize, chunk_size: usize) -> (count: usize)
    requires
        chunk_size > 0,
    ensures
        count == batches_for(rows as int, chunk_size as int),
{
    batch_count(rows, chunk_size)
}

/// The seed of the second shuffle of the rows.
pub fn shuffled_rows_seed(seed: u64) -> (result: u64)
    ensures
        result == seed ^ 0xBADC_0FFE_E0DD_F00D,
        result == seed ^ SHUFFLED_ROWS_MASK,
{
    seed ^ SHUFFLED_ROWS_MASK
}

/// The seed of the planner for a horizon and a chunk.
pub open spec fn planner_seed_of(seed: u64, horizon: u64, chunk: u64) -> u64 {
    (seed ^ (horizon << 32)) ^ chunk
}

/// The seed of the closed loop for a horizon and a chunk.
pub open spec fn closed_loop_seed_of(seed: u64, horizon: u64, chunk: u64) -> u64 {
    (seed ^ (horizon << 32)) ^ (chunk << 16)
}

/// No two horizons and chunks of ordinary size share a seed, and the seeds of a run change with the
/// run's own.
pub proof fn law_horizons_and_chunks_have_their_own_seeds(
    seed: u64,
    other: u64,
    horizon: u64,
    chunk: u64,
    second_horizon: u64,
    second_chunk: u64,
)
    requires
        horizon < 0x1_0000_0000,
        second_horizon < 0x1_0000_0000,
        chunk < 0x1_0000,
        second_chunk < 0x1_0000,
        seed != other,
    ensures
        horizon != second_horizon || chunk != second_chunk ==> planner_seed_of(
            seed,
            horizon,
            chunk,
        ) != planner_seed_of(seed, second_horizon, second_chunk) && closed_loop_seed_of(
            seed,
            horizon,
            chunk,
        ) != closed_loop_seed_of(seed, second_horizon, second_chunk),
        planner_seed_of(seed, horizon, chunk) != planner_seed_of(other, horizon, chunk),
        closed_loop_seed_of(seed, horizon, chunk) != closed_loop_seed_of(other, horizon, chunk),
{
    assert(horizon != second_horizon || chunk != second_chunk ==> (seed ^ (horizon << 32)) ^ chunk
        != (seed ^ (second_horizon << 32)) ^ second_chunk) by (bit_vector)
        requires
            horizon < 0x1_0000_0000,
            second_horizon < 0x1_0000_0000,
            chunk < 0x1_0000,
            second_chunk < 0x1_0000,
    ;
    assert(horizon != second_horizon || chunk != second_chunk ==> (seed ^ (horizon << 32)) ^ (chunk
        << 16) != (seed ^ (second_horizon << 32)) ^ (second_chunk << 16)) by (bit_vector)
        requires
            horizon < 0x1_0000_0000,
            second_horizon < 0x1_0000_0000,
            chunk < 0x1_0000,
            second_chunk < 0x1_0000,
    ;
    assert((seed ^ (horizon << 32)) ^ chunk != (other ^ (horizon << 32)) ^ chunk) by (bit_vector)
        requires
            seed != other,
    ;
    assert((seed ^ (horizon << 32)) ^ (chunk << 16) != (other ^ (horizon << 32)) ^ (chunk << 16))
        by (bit_vector)
        requires
            seed != other,
    ;
}

/// The seed of the planner for one horizon and chunk.
pub fn planner_seed(seed: u64, horizon: usize, chunk: usize) -> (result: u64)
    ensures
        result == planner_seed_of(seed, horizon as u64, chunk as u64),
        result == (seed ^ ((horizon as u64) << 32)) ^ (chunk as u64),
{
    (seed ^ ((horizon as u64) << 32)) ^ (chunk as u64)
}

/// The seed of the closed-loop planner for one horizon and chunk.
pub fn closed_loop_seed(seed: u64, horizon: usize, chunk: usize) -> (result: u64)
    ensures
        result == closed_loop_seed_of(seed, horizon as u64, chunk as u64),
        result == (seed ^ ((horizon as u64) << 32)) ^ ((chunk as u64) << 16),
{
    (seed ^ ((horizon as u64) << 32)) ^ ((chunk as u64) << 16)
}

/// The chunks of one horizon are planned with different seeds.
pub proof fn law_planner_seeds_differ(seed: u64, horizon: u64, first: u64, second: u64)
    requires
        first != second,
    ensures
        (seed ^ (horizon << 32)) ^ first != (seed ^ (horizon << 32)) ^ second,
{
    assert(first != second ==> (seed ^ (horizon << 32)) ^ first != (seed ^ (horizon << 32))
        ^ second) by (bit_vector);
}

/// How many closed-loop steps are flown: none where none are asked for, and not beyond the horizon.
pub fn closed_loop_steps(requested: usize, horizon: usize) -> (steps: Option<usize>)
    ensures
        steps == if requested == 0 {
            None
        } else if requested < horizon {
            Some(requested)
        } else {
            Some(horizon)
        },
        steps is None <==> requested == 0,
        steps matches Some(count) ==> count <= requested && count <= horizon && (count == requested
            || count == horizon),
{
    if requested == 0 {
        None
    } else if requested < horizon {
        Some(requested)
    } else {
        Some(horizon)
    }
}

/// Why a closed loop cannot be flown.
#[derive(Clone, Copy, PartialEq, Eq, Structural, Debug)]
pub enum ClosedLoopError {
    NoSteps,
    BeyondHorizon { steps: usize, horizon: usize },
}

/// Checks the length of a closed loop.
pub fn check_closed_loop(steps: usize, horizon: usize) -> (result: Result<(), ClosedLoopError>)
    ensures
        match result {
            Ok(()) => 0 < steps <= horizon,
            Err(ClosedLoopError::NoSteps) => steps == 0,
            Err(ClosedLoopError::BeyondHorizon { steps: found, horizon: limit }) => found == steps
                && limit == horizon && steps > horizon,
        },
{
    if steps == 0 {
        return Err(ClosedLoopError::NoSteps);
    }
    if steps > horizon {
        return Err(ClosedLoopError::BeyondHorizon { steps, horizon });
    }
    Ok(())
}

/// A window of the past after one step: the oldest entry leaves, the newest comes in. An empty
/// window stays empty.
pub open spec fn shifted<T>(window: Seq<T>, next: T) -> Seq<T> {
    if window.len() == 0 {
        window
    } else {
        window.drop_first().push(next)
    }
}

/// Moves a window of the past on by one step.
pub fn shift_window(window: &mut Vec<usize>, next: usize)
    ensures
        final(window)@ == shifted(old(window)@, next),
{
    if window.len() > 0 {
        window.remove(0);
        window.push(next);
        assert(window@ =~= old(window)@.drop_first().push(next));
    }
}

/// A window after several steps.
pub open spec fn shifted_by<T>(window: Seq<T>, steps: Seq<T>) -> Seq<T>
    decreases steps.len(),
{
    if steps.len() == 0 {
        window
    } else {
        shifted(shifted_by(window, steps.drop_last()), steps.last())
    }
}

/// A window keeps its length, and always holds the latest entries: the end of everything that it
/// started with and that came in since.
pub proof fn law_window_holds_the_latest<T>(window: Seq<T>, steps: Seq<T>)
    ensures
        shifted_by(window, steps).len() == window.len(),
        shifted_by(window, steps) == (window + steps).skip(steps.len() as int),
    decreases steps.len(),
{
    if steps.len() == 0 {
        assert((window + steps).skip(0) =~= window);
    } else {
        let before = steps.drop_last();
        law_window_holds_the_latest(window, before);
        if window.len() == 0 {
            assert((window + steps).skip(steps.len() as int) =~= window);
        } else {
            assert(shifted_by(window, steps) =~= (window + steps).skip(steps.len() as int));
        }
    }
}

/// One closed loop between two steps: the places in the recorded embeddings and actions that the
/// planner sees as its past.
#[derive(Debug)]
pub struct ClosedLoop {
    pub steps: usize,
    pub done: usize,
    pub history: Vec<usize>,
    pub prefix: Vec<usize>,
}

impl ClosedLoop {
    /// What holds between two steps: the actions of the past are one fewer than the embeddings.
    pub open spec fn well_formed(self) -> bool {
        &&& self.done <= self.steps
        &&& self.history@.len() == self.prefix@.len() + 1
    }

    /// A loop of `steps` steps that starts from the first `history` recorded embeddings and from
    /// the actions between them.
    pub fn new(steps: usize, history: usize) -> (closed: ClosedLoop)
        requires
            history > 0,
        ensures
            closed.well_formed(),
            closed.steps == steps,
            closed.done == 0,
            closed.history@ == Seq::new(history as nat, |place: int| place as usize),
            closed.prefix@ == Seq::new((history - 1) as nat, |place: int| place as usize),
    {
        let mut embeddings: Vec<usize> = Vec::new();
        let mut actions: Vec<usize> = Vec::new();
        let mut place: usize = 0;
        while place + 1 < history
            invariant
                place < history,
                embeddings@ == Seq::new(place as nat, |earlier: int| earlier as usize),
                actions@ == Seq::new(place as nat, |earlier: int| earlier as usize),
            decreases history - place,
        {
            embeddings.push(place);
            actions.push(place);
            place = place + 1;
        }
        embeddings.push(place);
        ClosedLoop { steps, done: 0, history: embeddings, prefix: actions }
    }

    /// The number of the next step, while there is one.
    pub fn next(&self) -> (step: Option<usize>)
        ensures
            step == if self.done < self.steps {
                Some(self.done)
            } else {
                None
            },
    {
        if self.done < self.steps {
            Some(self.done)
        } else {
            None
        }
    }

    /// Moves on by one step, to a new embedding and a new action.
    pub fn step(&mut self, embedding: usize, action: usize)
        requires
            old(self).well_formed(),
            old(self).done < old(self).steps,
        ensures
            final(self).well_formed(),
            final(self).steps == old(self).steps,
            final(self).done == old(self).done + 1,
            final(self).history@ == shifted(old(self).history@, embedding),
            final(self).prefix@ == shifted(old(self).prefix@, action),
    {
        shift_window(&mut self.history, embedding);
        shift_window(&mut self.prefix, action);
        self.done = self.done + 1;
    }
}

/// The accumulators of traced planner iterations, by horizon and iteration.
#[derive(Debug)]
pub struct TraceSlots {
    pub slots: Vec<(usize, usize)>,
}

impl TraceSlots {
    /// No horizon and iteration has two accumulators.
    pub open spec fn well_formed(self) -> bool {
        self.slots@.no_duplicates()
    }

    /// No accumulators.
    pub fn new() -> (result: Self)
        ensures
            result.slots@.len() == 0,
            result.well_formed(),
    {
        TraceSlots { slots: Vec::new() }
    }

    /// Finds the accumulator of a horizon and an iteration, or adds one at the end.
    pub fn trace_accum_mut(&mut self, horizon: usize, iteration: usize) -> (place: usize)
        requires
            old(self).well_formed(),
        ensures
            final(self).well_formed(),
            place < final(self).slots@.len(),
            final(self).slots@[place as int] == (horizon, iteration),
            old(self).slots@.contains((horizon, iteration)) ==> final(self).slots@ == old(
                self,
            ).slots@,
            !old(self).slots@.contains((horizon, iteration)) ==> final(self).slots@ == old(
                self,
            ).slots@.push((horizon, iteration)),
    {
        let mut place: usize = 0;
        while place < self.slots.len()
            invariant
                place <= self.slots@.len(),
                self.slots@ == old(self).slots@,
                self.well_formed(),
                forall|i: int| 0 <= i < place ==> #[trigger] self.slots@[i] != (horizon, iteration),
            decreases self.slots@.len() - place,
        {
            let slot: (usize, usize) = self.slots[place];
            if slot.0 == horizon && slot.1 == iteration {
                return place;
            }
            place = place + 1;
        }
        self.slots.push((horizon, iteration));
        place
    }
}

/// Which part of a target embedding a cost is measured against.
#[derive(Clone, Copy, PartialEq, Eq, Structural, Debug)]
pub enum TargetUse {
    Whole,
    /// The step at that place.
    Step(usize),
}

/// What of a target of that shape is used.
pub open spec fn used_of(dims: Seq<usize>, batch: usize, dim: usize) -> Option<TargetUse> {
    if dims == seq![batch, dim] {
        Some(TargetUse::Whole)
    } else if dims.len() == 3 && dims[0] == batch && dims[2] == dim {
        Some(TargetUse::Step((dims[1] - 1) as usize))
    } else {
        None
    }
}

/// A vector for each row is used whole, of a series the last vector, and no other shape is used.
pub proof fn law_the_last_target_counts(batch: usize, time: usize, dim: usize, dims: Seq<usize>)
    requires
        time > 0,
    ensures
        used_of(seq![batch, dim], batch, dim) == Some(TargetUse::Whole),
        used_of(seq![batch, time, dim], batch, dim) matches Some(TargetUse::Step(step)) && step + 1
            == time,
        used_of(dims, batch, dim) is Some ==> dims.first() == batch && dims.last() == dim && 2
            <= dims.len() <= 3,
{
    assert(seq![batch, time, dim].len() != seq![batch, dim].len());
}

/// Reads the shape of a target embedding: one vector for each of `batch` rows, or a series of
/// which the last counts.
pub fn target_use(dims: &[usize], batch: usize, dim: usize) -> (found: Option<TargetUse>)
    requires
        dims@.len() == 3 && dims@[0] == batch && dims@[2] == dim ==> dims@[1] > 0,
    ensures
        found == used_of(dims@, batch, dim),
        found == if dims@ == seq![batch, dim] {
            Some(TargetUse::Whole)
        } else if dims@.len() == 3 && dims@[0] == batch && dims@[2] == dim {
            Some(TargetUse::Step((dims@[1] - 1) as usize))
        } else {
            None
        },
{
    if dims.len() == 2 && dims[0] == batch && dims[1] == dim {
        assert(dims@ =~= seq![batch, dim]);
        return Some(TargetUse::Whole);
    }
    if dims.len() == 3 && dims[0] == batch && dims[2] == dim {
        return Some(TargetUse::Step(dims[1] - 1));
    }
    None
}

/// The steps of a rollout behind its history.
pub open spec fn future_of(history_size: int, time: int) -> Option<int> {
    if history_size < time {
        Some(time - history_size)
    } else {
        None
    }
}

/// History and future make up a rollout, and there is a future exactly where the rollout is longer
/// than the history.
pub proof fn law_history_and_future_make_up_a_rollout(history_size: int, future: int)
    requires
        future > 0,
    ensures
        future_of(history_size, history_size + future) == Some(future),
        future_of(history_size, history_size) is None,
        future_of(history_size, history_size - future) is None,
{
}

/// How many steps of a rollout lie behind the history; a rollout without any is refused.
pub fn future_length(history_size: usize, time: usize) -> (length: Option<usize>)
    ensures
        match future_of(history_size as int, time as int) {
            Some(steps) => length == Some(steps as usize),
            None => length is None,
        },
        match length {
            Some(steps) => steps == time - history_size && steps > 0,
            None => history_size >= time,
        },
{
    if history_size >= time {
        None
    } else {
        Some(time - history_size)
    }
}

/// The settings of the command line.
#[derive(Clone, Copy, Debug)]
pub struct CheckedArgs {
    pub chunk_size: usize,
    pub planner_samples: usize,
    pub planner_elites: usize,
    pub planner_iterations: usize,
    pub planner_init_std: Score,
    pub planner_min_std: Score,
}

impl CheckedArgs {
    /// The message of the first check that fails.
    pub open spec fn refusal(self) -> Option<Seq<char>> {
        if self.chunk_size == 0 {
            Some("--chunk-size must be greater than zero"@)
        } else if self.planner_samples == 0 {
            Some("--planner-samples must be greater than zero"@)
        } else if self.planner_elites < 2 || self.planner_elites > self.planner_samples {
            Some("--planner-elites must be in [2, planner_samples]"@)
        } else if self.planner_iterations == 0 {
            Some("--planner-iterations must be greater than zero"@)
        } else if !self.planner_init_std.positive() {
            Some("--planner-init-std must be finite and positive"@)
        } else if !self.planner_min_std.non_negative() {
            Some("--planner-min-std must be finite and non-negative"@)
        } else {
            None
        }
    }
}

/// Checks the settings of the command line, in order.
pub fn validate_args(args: &CheckedArgs) -> (result: Result<(), &'static str>)
    ensures
        match result {
            Ok(()) => args.refusal() is None,
            Err(message) => args.refusal() == Some(message@),
        },
{
    if args.chunk_size == 0 {
        return Err("--chunk-size must be greater than zero");
    }
    if args.planner_samples == 0 {
        return Err("--planner-samples must be greater than zero");
    }
    if args.planner_elites < 2 || args.planner_elites > args.planner_samples {
        return Err("--planner-elites must be in [2, planner_samples]");
    }
    if args.planner_iterations == 0 {
        return Err("--planner-iterations must be greater than zero");
    }
    if !args.planner_init_std.is_positive() {
        return Err("--planner-init-std must be finite and positive");
    }
    if !args.planner_min_std.is_non_negative() {
        return Err("--planner-min-std must be finite and non-negative");
    }
    Ok(())
}

/// How the planner starts its search.
#[derive(Clone, Copy, PartialEq, Eq, Structural, Debug)]
pub enum WarmStartMode {
    /// From nothing.
    Cold,
    FirstAction,
    ExpertSequence,
}

/// What the planner starts from.
#[derive(Clone, Copy, PartialEq, Eq, Structural, Debug)]
pub enum WarmStartUse {
    Nothing,
    /// The expert's first action at every step of the horizon.
    Repeated,
    Sequence,
}

/// The expert's actions have another shape than the start of a plan.
#[derive(PartialEq, Eq, Debug)]
pub struct WarmStartShape {
    pub found: Vec<usize>,
    pub expected: [usize; 3],
}

/// What the planner starts from in that mode, with the expert's actions in that shape.
pub open spec fn started_from(
    mode: WarmStartMode,
    expert_dims: Seq<usize>,
    expected: Seq<usize>,
) -> Option<WarmStartUse> {
    match mode {
        WarmStartMode::Cold => Some(WarmStartUse::Nothing),
        WarmStartMode::FirstAction => Some(WarmStartUse::Repeated),
        WarmStartMode::ExpertSequence => if expert_dims == expected {
            Some(WarmStartUse::Sequence)
        } else {
            None
        },
    }
}

/// Each mode has its own start, and only the expert's whole sequence must have the shape of a plan.
pub proof fn law_starts_follow_the_mode(expert_dims: Seq<usize>, expected: Seq<usize>)
    ensures
        started_from(WarmStartMode::Cold, expert_dims, expected) == Some(WarmStartUse::Nothing),
        started_from(WarmStartMode::FirstAction, expert_dims, expected) == Some(
            WarmStartUse::Repeated,
        ),
        started_from(WarmStartMode::ExpertSequence, expected, expected) == Some(
            WarmStartUse::Sequence,
        ),
        expert_dims != expected ==> started_from(
            WarmStartMode::ExpertSequence,
            expert_dims,
            expected,
        ) is None,
{
}

/// Decides what the planner starts from. The expert's actions must be one action for each row of the
/// batch and each step of the horizon where they are the start.
pub fn warm_start_use(
    mode: WarmStartMode,
    expert_dims: &[usize],
    batch: usize,
    horizon: usize,
    action_dim: usize,
) -> (result: Result<WarmStartUse, WarmStartShape>)
    ensures
        match started_from(mode, expert_dims@, seq![batch, horizon, action_dim]) {
            Some(used) => result == Ok::<WarmStartUse, WarmStartShape>(used),
            None => result is Err,
        },
        match result {
            Ok(used) => used == match mode {
                WarmStartMode::Cold => WarmStartUse::Nothing,
                WarmStartMode::FirstAction => WarmStartUse::Repeated,
                WarmStartMode::ExpertSequence => WarmStartUse::Sequence,
            } && (mode == WarmStartMode::ExpertSequence ==> expert_dims@ == seq![
                batch,
                horizon,
                action_dim,
            ]),
            Err(shape) => {
                &&& mode == WarmStartMode::ExpertSequence
                &&& expert_dims@ != seq![batch, horizon, action_dim]
                &&& shape.found@ == expert_dims@
                &&& shape.expected@ == seq![batch, horizon, action_dim]
            },
        },
{
    match mode {
        WarmStartMode::Cold => Ok(WarmStartUse::Nothing),
        WarmStartMode::FirstAction => Ok(WarmStartUse::Repeated),
        WarmStartMode::ExpertSequence => {
            if expert_dims.len() == 3 && expert_dims[0] == batch && expert_dims[1] == horizon
                && expert_dims[2] == action_dim {
                assert(expert_dims@ =~= seq![batch, horizon, action_dim]);
                Ok(WarmStartUse::Sequence)
            } else {
                let expected = [batch, horizon, action_dim];
                assert(expected@ =~= seq![batch, horizon, action_dim]);
                Err(WarmStartShape { found: vstd::slice::slice_to_vec(expert_dims), expected })
            }
        },
    }
}

/// The data set that is evaluated by default.
pub fn default_dataset_dir(home: Option<&str>) -> (path: String)
    ensures
        path@ == stored(home, "le-wm-nv-data"@, "drone-racing-autonomous-100hz-pose12"@),
{
    stored_dir(home, "le-wm-nv-data", "drone-racing-autonomous-100hz-pose12")
}

/// The report that is written by default, stamped with the time in seconds.
pub fn default_json_path(stamp: u64) -> (path: String)
    ensures
        path@ == joined(
            joined("target"@, "drone-planner-eval"@),
            decimal(stamp as nat) + ".json"@,
        ),
{
    let name = format_decimal(stamp).concat(".json");
    join(join("target", "drone-planner-eval").as_str(), name.as_str())
}

/// Settings are accepted exactly where each of them is in its range.
pub proof fn law_accepted_settings_are_in_range(args: CheckedArgs)
    ensures
        args.refusal() is None <==> {
            &&& args.chunk_size > 0
            &&& 2 <= args.planner_elites <= args.planner_samples
            &&& args.planner_iterations > 0
            &&& args.planner_init_std.positive()
            &&& args.planner_min_std.non_negative()
        },
{
}

/// A window that moves on by a step loses its oldest entry and gains the step at its end.
pub proof fn law_windows_move_on_by_one<T>(window: Seq<T>, next: T, place: int)
    requires
        window.len() > 0,
        0 <= place < window.len(),
    ensures
        shifted(window, next).len() == window.len(),
        place + 1 < window.len() ==> shifted(window, next)[place] == window[place + 1],
        place + 1 == window.len() ==> shifted(window, next)[place] == next,
{
}

} // verus!
