//! Evaluation of a trained world model on held-out flights, and the replay that it writes.

use crate::batching::min_of;
use crate::eval_drone_checkpoints::last_largest;
use crate::paths::{join, joined, stored, stored_dir};
use vstd::prelude::*;

verus! {

/// The settings of the command line.
#[derive(Clone, Copy, PartialEq, Eq, Structural, Debug)]
pub struct CheckedArgs {
    pub history_steps: usize,
    pub horizon_steps: usize,
    pub batch_size: usize,
    pub max_batches: usize,
}

impl CheckedArgs {
    /// The message of the first check that fails.
    pub open spec fn refusal(self) -> Option<Seq<char>> {
        if self.history_steps == 0 {
            Some("--history-steps must be greater than zero"@)
        } else if self.horizon_steps == 0 {
            Some("--horizon-steps must be greater than zero"@)
        } else if self.batch_size == 0 {
            Some("--batch-size must be greater than zero"@)
        } else if self.max_batches == 0 {
            Some("--max-batches must be greater than zero"@)
        } else {
            None
        }
    }
}

/// Checks the settings of the command line, in order.
pub fn validate_args(args: &CheckedArgs) -> (result: Result<(), &'static str>)
    ensures
        match result {
            Ok(()) => args.refusal() is None,
            Err(message) => args.refusal() == Some(message@),
        },
{
    if args.history_steps == 0 {
        return Err("--history-steps must be greater than zero");
    }
    if args.horizon_steps == 0 {
        return Err("--horizon-steps must be greater than zero");
    }
    if args.batch_size == 0 {
        return Err("--batch-size must be greater than zero");
    }
    if args.max_batches == 0 {
        return Err("--max-batches must be greater than zero");
    }
    Ok(())
}

/// How many steps a replay takes from one recorded state: the horizon, as far as the model's window
/// of `sequence_steps` frames reaches.
pub fn replay_chunk_steps(horizon_steps: usize, sequence_steps: usize) -> (result: Result<
    usize,
    &'static str,
>)
    ensures
        match result {
            Ok(steps) => sequence_steps > 1 && steps == min_of(
                horizon_steps as int,
                sequence_steps - 1,
            ),
            Err(message) => sequence_steps <= 1 && message@
                == "model config predictor.num_frames must be greater than one"@,
        },
{
    if sequence_steps <= 1 {
        return Err("model config predictor.num_frames must be greater than one");
    }
    if horizon_steps < sequence_steps - 1 {
        Ok(horizon_steps)
    } else {
        Ok(sequence_steps - 1)
    }
}

/// The rows among the first `count` that belong to an episode.
pub open spec fn rows_of_episode(
    episodes: Seq<i64>,
    rows: Seq<usize>,
    episode: i64,
    count: int,
) -> Seq<usize>
    decreases count,
{
    if count <= 0 {
        Seq::empty()
    } else {
        let before = rows_of_episode(episodes, rows, episode, count - 1);
        let row = rows[count - 1];
        if row < episodes.len() && episodes[row as int] == episode {
            before.push(row)
        } else {
            before
        }
    }
}

/// Lists the rows at which a replay may start: all held-out rows, or those of one episode. An
/// episode without such rows is the error.
pub fn replay_candidate_rows(
    episodes: &Vec<i64>,
    eval_rows: &Vec<usize>,
    replay_episode: Option<i64>,
) -> (result: Result<Vec<usize>, i64>)
    ensures
        match replay_episode {
            None => result matches Ok(rows) && rows@ == eval_rows@,
            Some(episode) => {
                let found = rows_of_episode(
                    episodes@,
                    eval_rows@,
                    episode,
                    eval_rows@.len() as int,
                );
                match result {
                    Ok(rows) => rows@ == found && found.len() > 0,
                    Err(named) => named == episode && found.len() == 0,
                }
            },
        },
{
    let episode: i64 = match replay_episode {
        Some(episode) => episode,
        None => {
            let mut all: Vec<usize> = Vec::new();
            let mut next: usize = 0;
            while next < eval_rows.len()
                invariant
                    next <= eval_rows@.len(),
                    all@ == eval_rows@.take(next as int),
                decreases eval_rows@.len() - next,
            {
                all.push(eval_rows[next]);
                next = next + 1;
                assert(all@ =~= eval_rows@.take(next as int));
            }
            assert(eval_rows@.take(next as int) =~= eval_rows@);
            return Ok(all);
        },
    };
    let mut rows: Vec<usize> = Vec::new();
    let mut next: usize = 0;
    while next < eval_rows.len()
        invariant
            next <= eval_rows@.len(),
            rows@ == rows_of_episode(episodes@, eval_rows@, episode, next as int),
        decreases eval_rows@.len() - next,
    {
        let row: usize = eval_rows[next];
        if row < episodes.len() && episodes[row] == episode {
            rows.push(row);
        }
        next = next + 1;
    }
    if rows.len() == 0 {
        return Err(episode);
    }
    Ok(rows)
}

/// Why there is no row to replay.
#[derive(Clone, Copy, PartialEq, Eq, Structural, Debug)]
pub enum ReplayError {
    /// The requested row is none of the held-out ones.
    NotHeldOut { row: usize },
    /// There is nothing to choose from.
    NoRow,
}

/// Chooses the row to replay: the requested one where there is one, else the one of the longest
/// path, given the paths' lengths as keys that keep their order.
pub fn select_replay_row(
    rows: &Vec<usize>,
    lengths: &Vec<i64>,
    replay_row: Option<usize>,
) -> (result: Result<usize, ReplayError>)
    requires
        replay_row is None ==> rows@.len() == lengths@.len(),
    ensures
        match replay_row {
            Some(row) => result == if rows@.contains(row) {
                Ok::<usize, ReplayError>(row)
            } else {
                Err::<usize, ReplayError>(ReplayError::NotHeldOut { row })
            },
            None => match result {
                Ok(row) => exists|place: int|
                    #[trigger] last_largest(lengths@, place) && rows@[place] == row,
                Err(error) => rows@.len() == 0 && error == ReplayError::NoRow,
            },
        },
{
    if let Some(row) = replay_row {
        let mut next: usize = 0;
        while next < rows.len()
            invariant
                replay_row == Some(row),
                next <= rows@.len(),
                forall|i: int| 0 <= i < next ==> #[trigger] rows@[i] != row,
            decreases rows@.len() - next,
        {
            if rows[next] == row {
                return Ok(row);
            }
            next = next + 1;
        }
        return Err(ReplayError::NotHeldOut { row });
    }
    match crate::eval_drone_checkpoints::select_replay_row(rows, lengths) {
        Ok(row) => Ok(row),
        Err(_) => Err(ReplayError::NoRow),
    }
}

/// A part of a replay that starts from a recorded frame.
#[derive(Clone, Copy, PartialEq, Eq, Structural, Debug)]
pub struct ReplayChunk {
    /// The frame that the part starts from.
    pub offset: usize,
    /// The frames that follow it.
    pub steps: usize,
}

/// The part of place `index` in a replay of `frames` frames.
pub open spec fn chunk_at(frames: int, chunk_steps: int, index: int) -> ReplayChunk {
    ReplayChunk {
        offset: (index * chunk_steps) as usize,
        steps: min_of(chunk_steps, frames - index * chunk_steps - 1) as usize,
    }
}

/// Divides a replay into parts that start from recorded frames.
pub fn replay_chunks(frames: usize, chunk_steps: usize) -> (chunks: Vec<ReplayChunk>)
    requires
        chunk_steps > 0,
    ensures
        forall|i: int|
            0 <= i < chunks@.len() ==> #[trigger] chunks@[i] == chunk_at(
                frames as int,
                chunk_steps as int,
                i,
            ),
        forall|i: int|
            0 <= i < chunks@.len() ==> #[trigger] (i * chunk_steps) + 1 < frames,
        chunks@.len() * chunk_steps + 1 >= frames,
{
    let mut chunks: Vec<ReplayChunk> = Vec::new();
    let mut offset: usize = 0;
    proof {
        assert(0 * chunk_steps == 0);
    }
    while frames > 0 && offset < frames - 1
        invariant
            chunk_steps > 0,
            frames > 0 ==> offset <= frames - 1,
            frames == 0 ==> offset == 0,
            offset == min_of(
                chunks@.len() * chunk_steps,
                if frames > 0 {
                    frames - 1
                } else {
                    0
                },
            ),
            forall|i: int|
                0 <= i < chunks@.len() ==> #[trigger] chunks@[i] == chunk_at(
                    frames as int,
                    chunk_steps as int,
                    i,
                ),
            forall|i: int|
                0 <= i < chunks@.len() ==> #[trigger] (i * chunk_steps) + 1 < frames,
        decreases frames - offset,
    {
        let left: usize = frames - offset - 1;
        let steps: usize = if chunk_steps < left {
            chunk_steps
        } else {
            left
        };
        proof {
            let count = chunks@.len() as int;
            assert((count + 1) * chunk_steps == count * chunk_steps + chunk_steps)
                by (nonlinear_arith);
        }
        chunks.push(ReplayChunk { offset, steps });
        offset = offset + steps;
    }
    chunks
}

/// Every frame behind the first belongs to the part that starts at most `chunk_steps` frames before
/// it.
pub proof fn law_chunks_reach_every_frame(frames: int, chunk_steps: int, frame: int)
    requires
        chunk_steps > 0,
        0 < frame < frames <= usize::MAX,
    ensures
        ({
            let chunk = chunk_at(frames, chunk_steps, (frame - 1) / chunk_steps);
            &&& chunk.offset < frame
            &&& frame <= chunk.offset + chunk.steps
            &&& chunk.steps <= chunk_steps
            &&& chunk.offset + chunk.steps < frames
        }),
{
    let index = (frame - 1) / chunk_steps;
    vstd::arithmetic::div_mod::lemma_fundamental_div_mod(frame - 1, chunk_steps);
    vstd::arithmetic::div_mod::lemma_mod_bound(frame - 1, chunk_steps);
    assert(index * chunk_steps == chunk_steps * ((frame - 1) / chunk_steps)) by (nonlinear_arith)
        requires
            index == (frame - 1) / chunk_steps,
    ;
    assert(index >= 0) by (nonlinear_arith)
        requires
            index == (frame - 1) / chunk_steps,
            frame >= 1,
            chunk_steps > 0,
    ;
    assert(index * chunk_steps >= 0) by (nonlinear_arith)
        requires
            index >= 0,
            chunk_steps > 0,
    ;
}

/// How the frames of an episode are predicted.
#[derive(Clone, Copy, PartialEq, Eq, Structural, Debug)]
pub enum PredictionPlan {
    /// The episode is no longer than the history: the recorded frames stand.
    Recorded,
    /// `history` recorded frames, then one predicted frame for each of the `predicted` others; the
    /// model is given `actions` actions, and its delta number `history + i` leads to the predicted
    /// frame `i`.
    Rollout { history: usize, actions: usize, predicted: usize },
}

/// How the frames of a replay are predicted from a history of `history` frames.
pub open spec fn prediction_of(frames: int, history: int) -> PredictionPlan {
    if frames <= history {
        PredictionPlan::Recorded
    } else {
        PredictionPlan::Rollout {
            history: history as usize,
            actions: (frames - 1) as usize,
            predicted: (frames - history) as usize,
        }
    }
}

/// The history and the predicted frames make up the replay, and an action leads from each of its
/// frames to the next. A replay that is no longer than the history is not predicted.
pub proof fn law_history_and_prediction_make_up_the_replay(frames: int, history: int)
    requires
        0 < history <= usize::MAX,
        0 < frames <= usize::MAX,
    ensures
        prediction_of(frames, history) == PredictionPlan::Recorded <==> frames <= history,
        prediction_of(frames, history) matches PredictionPlan::Rollout {
            history: own,
            actions,
            predicted,
        } ==> own == history && own + predicted == frames && actions + 1 == frames,
{
}

/// Plans the prediction of an episode of `frames` frames.
pub fn plan_prediction(frames: usize, model_history: usize, sequence_steps: usize) -> (result:
    Result<PredictionPlan, &'static str>)
    ensures
        result matches Ok(plan) ==> plan == prediction_of(
            frames as int,
            min_of(model_history as int, sequence_steps as int),
        ),
        result is Ok <==> frames > 0 && model_history > 0 && sequence_steps > 0,
        ({
            let history = min_of(model_history as int, sequence_steps as int);
            match result {
                Ok(PredictionPlan::Recorded) => 0 < frames <= history,
                Ok(PredictionPlan::Rollout { history: own, actions, predicted }) => {
                    &&& frames > history > 0
                    &&& own == history
                    &&& actions == frames - 1
                    &&& predicted == frames - history
                },
                Err(message) => if frames == 0 {
                    message@ == "cannot build prediction for empty replay"@
                } else {
                    history == 0 && message@ == "model history_size must be greater than zero"@
                },
            }
        }),
{
    if frames == 0 {
        return Err("cannot build prediction for empty replay");
    }
    let history: usize = if model_history < sequence_steps {
        model_history
    } else {
        sequence_steps
    };
    if history == 0 {
        return Err("model history_size must be greater than zero");
    }
    if frames <= history {
        return Ok(PredictionPlan::Recorded);
    }
    Ok(PredictionPlan::Rollout { history, actions: frames - 1, predicted: frames - history })
}

/// What of a frame enters an observation.
#[derive(Debug)]
pub struct ObservedFrame<T> {
    pub rotation: [T; 9],
    pub linear_velocity: [T; 3],
    pub angular_velocity: [T; 3],
    pub battery: T,
    pub action: [T; 4],
}

/// The observation of frame `index`: its own state, and the action of the frame before it, or its
/// own action where it is the first.
pub open spec fn observation<T>(frames: Seq<ObservedFrame<T>>, index: int) -> Seq<T> {
    let frame = frames[index];
    let acting = if index > 0 {
        frames[index - 1]
    } else {
        frame
    };
    frame.rotation@ + frame.linear_velocity@ + frame.angular_velocity@ + seq![frame.battery]
        + acting.action@
}

/// Appends a list to another.
pub(crate) fn append<T: Copy>(values: &mut Vec<T>, part: &[T])
    ensures
        final(values)@ == old(values)@ + part@,
{
    let count: usize = part.len();
    let mut next: usize = 0;
    while next < count
        invariant
            next <= count == part@.len(),
            values@ == old(values)@ + part@.take(next as int),
        decreases count - next,
    {
        values.push(part[next]);
        next = next + 1;
        assert(values@ =~= old(values)@ + part@.take(next as int));
    }
    assert(part@.take(next as int) =~= part@);
}

/// Lays out the observations of the first `history_size` frames, one list for each.
pub fn initial_observations<T: Copy>(frames: &Vec<ObservedFrame<T>>, history_size: usize) -> (rows:
    Vec<Vec<T>>)
    requires
        history_size <= frames@.len(),
    ensures
        rows@.len() == history_size,
        forall|i: int| 0 <= i < rows@.len() ==> (#[trigger] rows@[i])@ == observation(frames@, i),
        forall|i: int| 0 <= i < rows@.len() ==> (#[trigger] rows@[i])@.len() == 20,
{
    let mut rows: Vec<Vec<T>> = Vec::new();
    let mut index: usize = 0;
    while index < history_size
        invariant
            index <= history_size <= frames@.len(),
            rows@.len() == index,
            forall|i: int|
                0 <= i < rows@.len() ==> (#[trigger] rows@[i])@ == observation(frames@, i),
            forall|i: int| 0 <= i < rows@.len() ==> (#[trigger] rows@[i])@.len() == 20,
        decreases history_size - index,
    {
        let frame: &ObservedFrame<T> = &frames[index];
        let mut values: Vec<T> = Vec::new();
        append(&mut values, frame.rotation.as_slice());
        append(&mut values, frame.linear_velocity.as_slice());
        append(&mut values, frame.angular_velocity.as_slice());
        values.push(frame.battery);
        if index > 0 {
            append(&mut values, frames[index - 1].action.as_slice());
        } else {
            append(&mut values, frame.action.as_slice());
        }
        assert(values@ =~= observation(frames@, index as int));
        rows.push(values);
        index = index + 1;
    }
    rows
}

/// Checks that values can be normalized: that there are as many means and deviations. The error gives
/// the three counts.
pub fn check_normalization(values: usize, means: usize, deviations: usize) -> (result: Result<
    (),
    (usize, usize, usize),
>)
    ensures
        match result {
            Ok(()) => values == means && values == deviations,
            Err(counts) => !(values == means && values == deviations) && counts == (
                values,
                means,
                deviations,
            ),
        },
{
    if values == means && values == deviations {
        Ok(())
    } else {
        Err((values, means, deviations))
    }
}

/// The frames that are compared: as many as all three replays have.
pub fn compared_frames(actual: usize, predicted: usize, baseline: usize) -> (count: usize)
    ensures
        count == min_of(min_of(actual as int, predicted as int), baseline as int),
{
    let pair: usize = if actual < predicted {
        actual
    } else {
        predicted
    };
    if pair < baseline {
        pair
    } else {
        baseline
    }
}

/// How many sample periods a replay lasts; nothing where its rate is unknown or it has no two
/// frames.
pub fn replay_periods(frames: usize, sample_rate_hz: usize) -> (periods: Option<usize>)
    ensures
        periods == if frames <= 1 || sample_rate_hz == 0 {
            None
        } else {
            Some((frames - 1) as usize)
        },
{
    if frames <= 1 || sample_rate_hz == 0 {
        None
    } else {
        Some(frames - 1)
    }
}

/// The data set that is evaluated by default.
pub fn default_dataset_dir(home: Option<&str>) -> (path: String)
    ensures
        path@ == stored(home, "le-wm-nv-data"@, "drone-racing-autonomous-100hz"@),
{
    stored_dir(home, "le-wm-nv-data", "drone-racing-autonomous-100hz")
}

/// The weights that are evaluated by default.
pub fn default_weights(home: Option<&str>) -> (path: String)
    ensures
        path@ == joined(
            stored(home, "le-wm-nv-runs"@, "drone-state-lewm-autonomous-100hz"@),
            "latest.safetensors"@,
        ),
{
    join(
        stored_dir(home, "le-wm-nv-runs", "drone-state-lewm-autonomous-100hz").as_str(),
        "latest.safetensors",
    )
}

/// The model's configuration that is read by default.
pub fn default_config(home: Option<&str>) -> (path: String)
    ensures
        path@ == joined(
            stored(home, "le-wm-nv-runs"@, "drone-state-lewm-autonomous-100hz"@),
            "model-config.json"@,
        ),
{
    join(
        stored_dir(home, "le-wm-nv-runs", "drone-state-lewm-autonomous-100hz").as_str(),
        "model-config.json",
    )
}

/// The directory that the report is written to by default.
pub fn default_output_dir(home: Option<&str>) -> (path: String)
    ensures
        path@ == stored(home, "le-wm-nv-reports"@, "drone-state-lewm-autonomous-100hz"@),
{
    stored_dir(home, "le-wm-nv-reports", "drone-state-lewm-autonomous-100hz")
}

/// The candidates of an episode are the rows that belong to it, as they stand.
pub proof fn law_candidates_belong_to_their_episode(
    episodes: Seq<i64>,
    rows: Seq<usize>,
    episode: i64,
    count: int,
)
    requires
        0 <= count <= rows.len(),
    ensures
        rows_of_episode(episodes, rows, episode, count) == rows.take(count).filter(
            |row: usize| row < episodes.len() && episodes[row as int] == episode,
        ),
    decreases count,
{
    reveal(Seq::filter);
    if count > 0 {
        law_candidates_belong_to_their_episode(episodes, rows, episode, count - 1);
        assert(rows.take(count).drop_last() =~= rows.take(count - 1));
    } else {
        assert(rows.take(0) =~= Seq::<usize>::empty());
    }
}

/// Chunks of a replay follow each other without a gap, are full but for the last, and each takes up
/// the frame that the one before ended with.
pub proof fn law_chunks_follow_each_other(frames: int, chunk_steps: int, index: int)
    requires
        chunk_steps > 0,
        index >= 0,
        frames <= usize::MAX,
        (index + 1) * chunk_steps + 1 < frames,
    ensures
        chunk_at(frames, chunk_steps, 0).offset == 0,
        chunk_at(frames, chunk_steps, index).steps == chunk_steps,
        chunk_at(frames, chunk_steps, index + 1).offset == chunk_at(
            frames,
            chunk_steps,
            index,
        ).offset + chunk_at(frames, chunk_steps, index).steps,
{
    assert((index + 1) * chunk_steps == index * chunk_steps + chunk_steps) by (nonlinear_arith);
    assert(0 <= index * chunk_steps) by (nonlinear_arith)
        requires
            0 <= index,
            0 < chunk_steps,
    ;
}

/// An observation holds the rotation, the two velocities, the battery and the action that led to it:
/// that of the frame before, or of the first frame itself.
pub proof fn law_observations_hold_the_action_before<T>(
    frames: Seq<ObservedFrame<T>>,
    index: int,
    place: int,
)
    requires
        0 <= index < frames.len(),
        0 <= place < 20,
    ensures
        observation(frames, index).len() == 20,
        place < 9 ==> observation(frames, index)[place] == frames[index].rotation@[place],
        9 <= place < 12 ==> observation(frames, index)[place]
            == frames[index].linear_velocity@[place - 9],
        12 <= place < 15 ==> observation(frames, index)[place]
            == frames[index].angular_velocity@[place - 12],
        place == 15 ==> observation(frames, index)[place] == frames[index].battery,
        16 <= place && index > 0 ==> observation(frames, index)[place] == frames[index
            - 1].action@[place - 16],
        16 <= place && index == 0 ==> observation(frames, index)[place]
            == frames[index].action@[place - 16],
{
}

/// Settings are accepted exactly where each of them is in its range.
pub proof fn law_accepted_settings_are_in_range(args: CheckedArgs)
    ensures
        args.refusal() is None <==> args.history_steps > 0 && args.horizon_steps > 0
            && args.batch_size > 0 && args.max_batches > 0,
{
}

} // verus!
