//! Evaluation of one rollout of a world model against a recorded flight.

use crate::drone_fit_plant::FrameIndex;
use crate::paths::{stored, stored_dir};
use vstd::prelude::*;

verus! {

/// The rows that a rollout is compared over.
#[derive(Clone, Copy, PartialEq, Eq, Structural, Debug)]
pub struct RolloutWindow {
    pub history_start: usize,
    pub sequence_steps: usize,
}

/// Why a rollout cannot be compared.
#[derive(Clone, Copy, PartialEq, Eq, Structural, Debug)]
pub enum RolloutError {
    /// The start row leaves no room for the history before it.
    NoHistory,
    /// The window exceeds the machine's word size.
    Overflow,
    /// The window's row `row` belongs to another episode than its first.
    CrossesEpisode { row: usize },
    /// The window's row `row` does not carry the step that its place asks for.
    StepGap { row: usize },
}

/// The window of a rollout from `start_row` on: it begins as many rows earlier as the history has.
pub open spec fn window_at(start_row: usize, history_size: usize, horizon_steps: usize) -> RolloutWindow {
    RolloutWindow {
        history_start: (start_row - history_size) as usize,
        sequence_steps: (history_size + horizon_steps) as usize,
    }
}

/// The history ends right before the start row, and the horizon begins with it.
pub proof fn law_histories_end_before_the_start(
    start_row: usize,
    history_size: usize,
    horizon_steps: usize,
)
    requires
        history_size <= start_row,
        history_size + horizon_steps <= usize::MAX,
    ensures
        window_at(start_row, history_size, horizon_steps).history_start + history_size == start_row,
        window_at(start_row, history_size, horizon_steps).history_start + window_at(
            start_row,
            history_size,
            horizon_steps,
        ).sequence_steps == start_row + horizon_steps,
{
}

/// Finds the rows of a rollout: the history before the start row, and the predicted steps from it
/// on.
pub fn rollout_window(start_row: usize, history_size: usize, horizon_steps: usize) -> (result: Result<
    RolloutWindow,
    RolloutError,
>)
    ensures
        result matches Ok(window) ==> window == window_at(start_row, history_size, horizon_steps),
        result is Ok <==> history_size <= start_row && history_size + horizon_steps <= usize::MAX,
        match result {
            Ok(window) => {
                &&& window.history_start + history_size == start_row
                &&& window.sequence_steps == history_size + horizon_steps
            },
            Err(RolloutError::NoHistory) => start_row < history_size,
            Err(RolloutError::Overflow) => start_row >= history_size && history_size
                + horizon_steps > usize::MAX,
            Err(_) => false,
        },
{
    if start_row < history_size {
        return Err(RolloutError::NoHistory);
    }
    match history_size.checked_add(horizon_steps) {
        Some(sequence_steps) => Ok(
            RolloutWindow { history_start: start_row - history_size, sequence_steps },
        ),
        None => Err(RolloutError::Overflow),
    }
}

/// The frame at place `offset` of a window belongs to the first one's episode, and its step lies as
/// far behind.
pub open spec fn follows(frames: Seq<FrameIndex>, offset: int) -> bool {
    &&& frames[offset].episode_idx == frames[0].episode_idx
    &&& frames[offset].step_idx == frames[0].step_idx + offset
}

/// Checks that the frames of a window, which begins at row `history_start`, are one uninterrupted
/// flight.
pub fn ensure_same_episode(frames: &Vec<FrameIndex>, history_start: usize) -> (result: Result<
    (),
    RolloutError,
>)
    requires
        history_start + frames@.len() <= usize::MAX,
    ensures
        match result {
            Ok(()) => forall|offset: int|
                0 < offset < frames@.len() ==> #[trigger] follows(frames@, offset),
            Err(error) => exists|offset: int|
                {
                    &&& 0 < offset < frames@.len()
                    &&& !(#[trigger] follows(frames@, offset))
                    &&& forall|earlier: int|
                        0 < earlier < offset ==> #[trigger] follows(frames@, earlier)
                    &&& error == if frames@[offset].episode_idx != frames@[0].episode_idx {
                        RolloutError::CrossesEpisode { row: (history_start + offset) as usize }
                    } else {
                        RolloutError::StepGap { row: (history_start + offset) as usize }
                    }
                },
        },
{
    let total: usize = frames.len();
    if total == 0 {
        return Ok(());
    }
    let first: FrameIndex = frames[0];
    let mut offset: usize = 1;
    while offset < total
        invariant
            1 <= offset <= total == frames@.len(),
            history_start + frames@.len() <= usize::MAX,
            first == frames@[0],
            forall|earlier: int| 0 < earlier < offset ==> #[trigger] follows(frames@, earlier),
        decreases total - offset,
    {
        let frame: FrameIndex = frames[offset];
        if frame.episode_idx != first.episode_idx {
            assert(!follows(frames@, offset as int));
            return Err(RolloutError::CrossesEpisode { row: history_start + offset });
        }
        if frame.step_idx as i128 != first.step_idx as i128 + offset as i128 {
            assert(!follows(frames@, offset as int));
            return Err(RolloutError::StepGap { row: history_start + offset });
        }
        offset = offset + 1;
    }
    Ok(())
}

/// In a window that passes, each frame is followed by the next step of its episode.
pub proof fn law_window_is_contiguous(frames: Seq<FrameIndex>, place: int)
    requires
        forall|offset: int| 0 < offset < frames.len() ==> #[trigger] follows(frames, offset),
        0 <= place,
        place + 1 < frames.len(),
    ensures
        frames[place + 1].episode_idx == frames[place].episode_idx,
        frames[place + 1].step_idx == frames[place].step_idx + 1,
{
    assert(follows(frames, place + 1));
    if place > 0 {
        assert(follows(frames, place));
    }
}

/// The step at place `index` is reported: the first one, every `every`-th one and the last.
pub open spec fn reported(index: int, count: int, every: int) -> bool {
    index == 0 || (index + 1) % every == 0 || index + 1 == count
}

/// The reported steps among the first `end`.
pub open spec fn reported_steps(count: int, every: int, end: int) -> Seq<usize>
    decreases end,
{
    if end <= 0 {
        Seq::empty()
    } else {
        let before = reported_steps(count, every, end - 1);
        if reported(end - 1, count, every) {
            before.push((end - 1) as usize)
        } else {
            before
        }
    }
}

/// One line of the report.
#[derive(Clone, Copy, PartialEq, Eq, Structural, Debug)]
pub struct SampleRow {
    /// The place of its measurements.
    pub index: usize,
    /// The number of the step, from one.
    pub step: usize,
    /// The row of the data that is predicted.
    pub row: usize,
}

/// The line of the step at place `index` of a rollout that predicts the rows from `start_row`.
pub open spec fn sample_row(start_row: int, index: int) -> SampleRow {
    SampleRow {
        index: index as usize,
        step: (index + 1) as usize,
        row: (start_row + index) as usize,
    }
}

/// Lists the lines of the report, for `count` steps that predict the rows from `start_row`.
pub fn sample_steps(count: usize, start_row: usize, report_every: usize) -> (rows: Vec<SampleRow>)
    requires
        report_every > 0,
        start_row + count <= usize::MAX + 1,
    ensures
        rows@ == reported_steps(count as int, report_every as int, count as int).map_values(
            |index: usize| sample_row(start_row as int, index as int),
        ),
{
    let mut rows: Vec<SampleRow> = Vec::new();
    let ghost line = |index: usize| sample_row(start_row as int, index as int);
    let mut index: usize = 0;
    assert(rows@ =~= reported_steps(count as int, report_every as int, 0).map_values(line));
    while index < count
        invariant
            index <= count,
            report_every > 0,
            start_row + count <= usize::MAX + 1,
            line == (|index: usize| sample_row(start_row as int, index as int)),
            rows@ == reported_steps(count as int, report_every as int, index as int).map_values(
                line,
            ),
        decreases count - index,
    {
        let ghost before = reported_steps(count as int, report_every as int, index as int);
        if index == 0 || (index + 1) % report_every == 0 || index + 1 == count {
            rows.push(SampleRow { index, step: index + 1, row: start_row + index });
            assert(before.push(index).map_values(line) =~= before.map_values(line).push(
                line(index),
            ));
        }
        index = index + 1;
    }
    rows
}

/// The first and the last step are always reported.
pub proof fn law_ends_are_reported(count: int, every: int)
    requires
        0 < count <= usize::MAX,
        every > 0,
    ensures
        reported_steps(count, every, count).len() > 0,
        reported_steps(count, every, count).last() == count - 1,
        reported_steps(count, every, count).first() == 0,
{
    lemma_first_reported(count, every, count);
}

proof fn lemma_first_reported(count: int, every: int, end: int)
    requires
        0 < end <= count,
        every > 0,
    ensures
        reported_steps(count, every, end).len() > 0,
        reported_steps(count, every, end).first() == 0,
    decreases end,
{
    if end > 1 {
        lemma_first_reported(count, every, end - 1);
    } else {
        assert(reported_steps(count, every, 0) =~= Seq::<usize>::empty());
    }
}

/// Why predictions and recorded embeddings cannot be compared.
#[derive(Clone, Copy, PartialEq, Eq, Structural, Debug)]
pub enum CompareError {
    Steps { predicted: usize, actual: usize },
    Dims { step: usize, predicted: usize, actual: usize },
}

/// Checks that predictions and recorded embeddings agree in their number and in their widths.
pub fn check_comparable(predicted: &Vec<usize>, actual: &Vec<usize>) -> (result: Result<
    (),
    CompareError,
>)
    ensures
        match result {
            Ok(()) => predicted@ == actual@,
            Err(CompareError::Steps { predicted: left, actual: right }) => left == predicted@.len()
                && right == actual@.len() && left != right,
            Err(CompareError::Dims { step, predicted: left, actual: right }) => {
                &&& predicted@.len() == actual@.len()
                &&& step < predicted@.len()
                &&& left == predicted@[step as int]
                &&& right == actual@[step as int]
                &&& left != right
                &&& forall|i: int| 0 <= i < step ==> #[trigger] predicted@[i] == actual@[i]
            },
        },
{
    if predicted.len() != actual.len() {
        return Err(CompareError::Steps { predicted: predicted.len(), actual: actual.len() });
    }
    let mut step: usize = 0;
    while step < predicted.len()
        invariant
            step <= predicted@.len() == actual@.len(),
            forall|i: int| 0 <= i < step ==> #[trigger] predicted@[i] == actual@[i],
        decreases predicted@.len() - step,
    {
        if predicted[step] != actual[step] {
            return Err(
                CompareError::Dims { step, predicted: predicted[step], actual: actual[step] },
            );
        }
        step = step + 1;
    }
    assert(predicted@ =~= actual@);
    Ok(())
}

/// Checks the settings of the command line, in order.
pub fn validate_args(horizon_steps: usize, report_every: usize) -> (result: Result<
    (),
    &'static str,
>)
    ensures
        match result {
            Ok(()) => horizon_steps > 0 && report_every > 0,
            Err(message) => if horizon_steps == 0 {
                message@ == "--horizon-steps must be greater than zero"@
            } else {
                report_every == 0 && message@ == "--report-every must be greater than zero"@
            },
        },
{
    if horizon_steps == 0 {
        return Err("--horizon-steps must be greater than zero");
    }
    if report_every == 0 {
        return Err("--report-every must be greater than zero");
    }
    Ok(())
}

/// The data set that is evaluated by default.
pub fn default_dataset_dir(home: Option<&str>) -> (path: String)
    ensures
        path@ == stored(home, "le-wm-nv-data"@, "drone-racing-autonomous-100hz-pose16"@),
{
    stored_dir(home, "le-wm-nv-data", "drone-racing-autonomous-100hz-pose16")
}

/// Frames that follow each other step by step in one episode make up a window.
pub proof fn law_contiguous_frames_make_a_window(frames: Seq<FrameIndex>, offset: int)
    requires
        forall|place: int|
            0 <= place < frames.len() - 1 ==> (#[trigger] frames[place]).episode_idx == frames[place
                + 1].episode_idx && frames[place + 1].step_idx == frames[place].step_idx + 1,
        0 <= offset < frames.len(),
    ensures
        follows(frames, offset),
    decreases offset,
{
    if offset > 0 {
        law_contiguous_frames_make_a_window(frames, offset - 1);
        assert(frames[offset - 1].episode_idx == frames[offset].episode_idx);
    }
}

/// The steps that are reported are the first, the last and every `every`-th, in ascending order and
/// no other.
#[verifier::spinoff_prover]
pub proof fn law_steps_are_reported_at_intervals(count: int, every: int, end: int)
    requires
        0 <= end <= count <= usize::MAX,
        every > 0,
    ensures
        forall|index: usize| #[trigger]
            reported_steps(count, every, end).contains(index) <==> index < end && (index == 0
                || index + 1 == count || (index + 1) % every == 0),
        forall|i: int, j: int|
            0 <= i < j < reported_steps(count, every, end).len() ==> #[trigger] reported_steps(
                count,
                every,
                end,
            )[i] < #[trigger] reported_steps(count, every, end)[j],
    decreases end,
{
    if end > 0 {
        law_steps_are_reported_at_intervals(count, every, end - 1);
        let before = reported_steps(count, every, end - 1);
        let all = reported_steps(count, every, end);
        assert forall|index: usize| #[trigger] all.contains(index) <==> index < end && (index == 0
            || index + 1 == count || (index + 1) % every == 0) by {
            assert(before.contains(index) <==> index < end - 1 && (index == 0 || index + 1 == count
                || (index + 1) % every == 0));
            if before.contains(index) {
                let place = choose|i: int| 0 <= i < before.len() && before[i] == index;
                assert(all[place] == index);
            }
            if all.contains(index) && !before.contains(index) {
                let place = choose|i: int| 0 <= i < all.len() && all[i] == index;
                assert(place < before.len() ==> before[place] == index);
            }
            if index == end - 1 && reported(end - 1, count, every) {
                assert(all[all.len() - 1] == index);
            }
        }
        assert forall|i: int, j: int| 0 <= i < j < all.len() implies #[trigger] all[i]
            < #[trigger] all[j] by {
            if j == before.len() {
                assert(before.contains(before[i]));
            }
        }
    }
}

/// The step behind row number `index` of a rollout is counted from one, and its row lies as far
/// behind the start.
pub proof fn law_reported_rows_name_their_step(start_row: int, index: int)
    requires
        0 <= start_row,
        0 <= index < usize::MAX,
        start_row + index <= usize::MAX,
    ensures
        sample_row(start_row, index).index == index,
        sample_row(start_row, index).step == index + 1,
        sample_row(start_row, index).row == start_row + index,
{
}

} // verus!
