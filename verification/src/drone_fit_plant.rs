//! Fitting the simple drone plant: which windows of the data are replayed, and how its settings
//! are tuned.

use crate::cli::{fraction_or, read_line, scan, size_or, take_fraction, take_size,
    take_text, text_or, CliError, FlagSpec, Reading, Token, ValueKind};
use crate::order::Score;
use crate::paths::{stored, stored_dir};
use crate::text::number_up_to;
use vstd::prelude::*;

verus! {

/// The key of the time step that is too short, a hundred-thousandth of a second.
pub const SHORT_STEP_KEY: i64 = 0x3ee4_f8b5_8000_0000;

/// The key of the longest time step, a twentieth of a second.
pub const LONG_STEP_KEY: i64 = 0x3fa9_9999_a000_0000;

/// What the choice of windows reads of a frame: its place, and its time step.
#[derive(Clone, Copy, Debug)]
pub struct FrameIndex {
    pub episode_idx: i64,
    pub step_idx: i64,
}

/// Frame `row` is followed by the next step of its episode; `time_steps` holds for each frame the
/// longer of its own time step and that of the next frame.
pub open spec fn continues(frames: Seq<FrameIndex>, time_steps: Seq<Score>, row: int) -> bool {
    &&& frames[row].episode_idx == frames[row + 1].episode_idx
    &&& frames[row + 1].step_idx == frames[row].step_idx + 1
    &&& time_steps[row].finite()
    &&& time_steps[row].over_key(SHORT_STEP_KEY)
    &&& !time_steps[row].over_key(LONG_STEP_KEY)
}

/// The window of `window_steps` steps from frame `start` on is one uninterrupted flight.
pub open spec fn window_valid(
    frames: Seq<FrameIndex>,
    time_steps: Seq<Score>,
    start: int,
    window_steps: int,
) -> bool {
    forall|row: int|
        start <= row < start + window_steps ==> #[trigger] continues(frames, time_steps, row)
}

/// A window is one uninterrupted flight exactly where all its frames belong to one episode, their
/// steps count on one by one, and every time step between them is longer than a hundred-thousandth
/// and at most a twentieth of a second.
#[verifier::spinoff_prover]
pub proof fn law_windows_are_uninterrupted(
    frames: Seq<FrameIndex>,
    time_steps: Seq<Score>,
    start: int,
    window_steps: int,
)
    requires
        0 <= start,
        0 <= window_steps,
    ensures
        window_valid(frames, time_steps, start, window_steps) <==> {
            &&& forall|row: int|
                start <= row <= start + window_steps ==> {
                    &&& (#[trigger] frames[row]).episode_idx == frames[start].episode_idx
                    &&& frames[row].step_idx - frames[start].step_idx == row - start
                }
            &&& forall|row: int|
                start <= row < start + window_steps ==> {
                    &&& Score::Key(0x3ee4_f8b5_8000_0000).below(#[trigger] time_steps[row])
                    &&& time_steps[row].at_most(Score::Key(0x3fa9_9999_a000_0000))
                }
        },
    decreases window_steps,
{
    if window_steps > 0 {
        let last = start + window_steps;
        law_windows_are_uninterrupted(frames, time_steps, start, window_steps - 1);
        if window_valid(frames, time_steps, start, window_steps) {
            assert(window_valid(frames, time_steps, start, window_steps - 1));
            assert(continues(frames, time_steps, last - 1));
            assert(frames[last - 1].episode_idx == frames[start].episode_idx);
            assert forall|row: int| start <= row < last implies {
                &&& Score::Key(0x3ee4_f8b5_8000_0000).below(#[trigger] time_steps[row])
                &&& time_steps[row].at_most(Score::Key(0x3fa9_9999_a000_0000))
            } by {
                assert(continues(frames, time_steps, row));
            }
        } else {
            let row = choose|row: int|
                start <= row < last && !(#[trigger] continues(frames, time_steps, row));
            assert(frames[row].episode_idx == frames[row].episode_idx);
            assert(frames[row + 1].episode_idx == frames[row + 1].episode_idx);
            assert(time_steps[row] == time_steps[row]);
        }
    }
}

/// Whether a window is one uninterrupted flight.
pub fn valid_window(
    frames: &Vec<FrameIndex>,
    time_steps: &Vec<Score>,
    start: usize,
    window_steps: usize,
) -> (answer: bool)
    requires
        start + window_steps < frames@.len(),
        time_steps@.len() + 1 >= frames@.len(),
    ensures
        answer == window_valid(frames@, time_steps@, start as int, window_steps as int),
{
    let total: usize = frames.len();
    let end: usize = start + window_steps;
    let mut row: usize = start;
    while row < end
        invariant
            start <= row <= end == start + window_steps < frames@.len() == total,
            time_steps@.len() + 1 >= frames@.len(),
            forall|r: int| start <= r < row ==> #[trigger] continues(frames@, time_steps@, r),
        decreases end - row,
    {
        let frame: FrameIndex = frames[row];
        let next: FrameIndex = frames[row + 1];
        let time_step: Score = time_steps[row];
        if frame.episode_idx != next.episode_idx || frame.step_idx == i64::MAX || next.step_idx
            != frame.step_idx + 1 || !time_step.is_finite() || !time_step.is_over_key(
            SHORT_STEP_KEY,
        ) || time_step.is_over_key(LONG_STEP_KEY) {
            assert(!continues(frames@, time_steps@, row as int));
            return false;
        }
        row = row + 1;
    }
    true
}

/// The starts of the windows that are found from frame `row` on: a valid window is taken, and the
/// search goes on `stride` frames later; otherwise it goes on with the next frame.
pub open spec fn found_from(
    frames: Seq<FrameIndex>,
    time_steps: Seq<Score>,
    window_steps: int,
    stride: int,
    row: int,
) -> Seq<usize>
    decreases (if row < frames.len() {
        frames.len() - row
    } else {
        0
    }),
{
    if row < 0 || row + window_steps >= frames.len() || window_steps < 0 || stride <= 0 {
        Seq::empty()
    } else if window_valid(frames, time_steps, row, window_steps) {
        seq![row as usize] + found_from(frames, time_steps, window_steps, stride, row + stride)
    } else {
        found_from(frames, time_steps, window_steps, stride, row + 1)
    }
}

/// At most `max_windows` of the windows, spread evenly over all of them.
pub open spec fn spread(found: Seq<usize>, max_windows: int) -> Seq<usize> {
    if found.len() <= max_windows {
        found
    } else {
        Seq::new(
            max_windows as nat,
            |i: int| found[i * found.len() / max_windows],
        )
    }
}

proof fn lemma_spread_index(index: int, count: int, max_windows: int)
    requires
        0 <= index < max_windows,
        0 < count,
    ensures
        0 <= index * count / max_windows < count,
{
    let product = index * count;
    assert(0 <= product < max_windows * count) by (nonlinear_arith)
        requires
            0 <= index < max_windows,
            0 < count,
            product == index * count,
    ;
    assert(0 <= product / max_windows < count) by (nonlinear_arith)
        requires
            0 <= product < max_windows * count,
            0 < max_windows,
    ;
}

/// Finds the windows to replay: valid ones, `stride` frames apart, at most `max_windows`.
pub fn collect_windows(
    frames: &Vec<FrameIndex>,
    time_steps: &Vec<Score>,
    window_steps: usize,
    stride: usize,
    max_windows: usize,
) -> (result: Result<Vec<usize>, &'static str>)
    requires
        time_steps@.len() + 1 >= frames@.len(),
        stride > 0,
        max_windows > 0,
    ensures
        ({
            let found = found_from(
                frames@,
                time_steps@,
                window_steps as int,
                stride as int,
                0,
            );
            match result {
                Ok(starts) => found.len() > 0 && starts@ == spread(found, max_windows as int),
                Err(message) => found.len() == 0 && message@
                    == "no valid windows found before downsampling"@,
            }
        }),
{
    let total: usize = frames.len();
    let ghost all = found_from(frames@, time_steps@, window_steps as int, stride as int, 0);
    let mut found: Vec<usize> = Vec::new();
    let mut row: usize = 0;
    while row < total && window_steps < total - row
        invariant
            total == frames@.len(),
            row <= total,
            stride > 0,
            time_steps@.len() + 1 >= frames@.len(),
            all == found@ + found_from(
                frames@,
                time_steps@,
                window_steps as int,
                stride as int,
                row as int,
            ),
        decreases total - row,
    {
        if valid_window(frames, time_steps, row, window_steps) {
            let ghost before = found@;
            found.push(row);
            let next: usize = if stride < total - row {
                row + stride
            } else {
                total
            };
            proof {
                assert(before + (seq![row] + found_from(
                    frames@,
                    time_steps@,
                    window_steps as int,
                    stride as int,
                    row + stride,
                )) =~= found@ + found_from(
                    frames@,
                    time_steps@,
                    window_steps as int,
                    stride as int,
                    row + stride,
                ));
                if stride >= total - row {
                    assert(found_from(
                        frames@,
                        time_steps@,
                        window_steps as int,
                        stride as int,
                        row + stride,
                    ) == Seq::<usize>::empty());
                    assert(found_from(
                        frames@,
                        time_steps@,
                        window_steps as int,
                        stride as int,
                        next as int,
                    ) == Seq::<usize>::empty());
                }
            }
            row = next;
        } else {
            row = row + 1;
        }
    }
    assert(found@ =~= all);
    if found.len() == 0 {
        return Err("no valid windows found before downsampling");
    }
    if found.len() <= max_windows {
        return Ok(found);
    }
    let count: usize = found.len();
    let mut starts: Vec<usize> = Vec::new();
    let mut index: usize = 0;
    while index < max_windows
        invariant
            index <= max_windows < count == found@.len(),
            starts@.len() == index,
            forall|i: int|
                0 <= i < index ==> #[trigger] starts@[i] == found@[i * found@.len() / (
                max_windows as int)],
        decreases max_windows - index,
    {
        proof {
            lemma_spread_index(index as int, count as int, max_windows as int);
            assert(index * count <= u128::MAX) by (nonlinear_arith)
                requires
                    0 <= index <= 0xffff_ffff_ffff_ffff,
                    0 <= count <= 0xffff_ffff_ffff_ffff,
            ;
        }
        let source: usize = (index as u128 * count as u128 / max_windows as u128) as usize;
        starts.push(found[source]);
        index = index + 1;
    }
    assert(starts@ =~= spread(found@, max_windows as int));
    Ok(starts)
}

proof fn lemma_found_are_valid(
    frames: Seq<FrameIndex>,
    time_steps: Seq<Score>,
    window_steps: int,
    stride: int,
    row: int,
    index: int,
)
    requires
        frames.len() <= usize::MAX,
        window_steps >= 0,
        stride > 0,
        row >= 0,
        0 <= index < found_from(frames, time_steps, window_steps, stride, row).len(),
    ensures
        ({
            let start = found_from(frames, time_steps, window_steps, stride, row)[index];
            &&& row <= start
            &&& start + window_steps < frames.len()
            &&& window_valid(frames, time_steps, start as int, window_steps)
        }),
    decreases (if row < frames.len() {
        frames.len() - row
    } else {
        0
    }),
{
    if row + window_steps < frames.len() {
        if window_valid(frames, time_steps, row, window_steps) {
            if index > 0 {
                lemma_found_are_valid(
                    frames,
                    time_steps,
                    window_steps,
                    stride,
                    row + stride,
                    index - 1,
                );
            }
        } else {
            lemma_found_are_valid(frames, time_steps, window_steps, stride, row + 1, index);
        }
    }
}

/// Every window that is replayed is an uninterrupted flight inside the data, and there are at most
/// `max_windows` of them.
pub proof fn law_replayed_windows_are_valid(
    frames: Seq<FrameIndex>,
    time_steps: Seq<Score>,
    window_steps: int,
    stride: int,
    max_windows: int,
    index: int,
)
    requires
        frames.len() <= usize::MAX,
        window_steps >= 0,
        stride > 0,
        max_windows > 0,
        0 <= index < spread(
            found_from(frames, time_steps, window_steps, stride, 0),
            max_windows,
        ).len(),
    ensures
        ({
            let starts = spread(
                found_from(frames, time_steps, window_steps, stride, 0),
                max_windows,
            );
            &&& starts.len() <= max_windows
            &&& starts[index] + window_steps < frames.len()
            &&& window_valid(frames, time_steps, starts[index] as int, window_steps)
        }),
{
    let found = found_from(frames, time_steps, window_steps, stride, 0);
    if found.len() <= max_windows {
        lemma_found_are_valid(frames, time_steps, window_steps, stride, 0, index);
    } else {
        lemma_spread_index(index, found.len() as int, max_windows);
        lemma_found_are_valid(
            frames,
            time_steps,
            window_steps,
            stride,
            0,
            index * found.len() / max_windows,
        );
    }
}

proof fn lemma_found_apart(
    frames: Seq<FrameIndex>,
    time_steps: Seq<Score>,
    window_steps: int,
    stride: int,
    row: int,
    index: int,
)
    requires
        frames.len() <= usize::MAX,
        window_steps >= 0,
        stride > 0,
        row >= 0,
        0 <= index,
        index + 1 < found_from(frames, time_steps, window_steps, stride, row).len(),
    ensures
        found_from(frames, time_steps, window_steps, stride, row)[index] + stride <= found_from(
            frames,
            time_steps,
            window_steps,
            stride,
            row,
        )[index + 1],
    decreases (if row < frames.len() {
        frames.len() - row
    } else {
        0
    }),
{
    if window_valid(frames, time_steps, row, window_steps) {
        let rest = found_from(frames, time_steps, window_steps, stride, row + stride);
        if index == 0 {
            lemma_found_are_valid(frames, time_steps, window_steps, stride, row + stride, 0);
        } else {
            lemma_found_apart(frames, time_steps, window_steps, stride, row + stride, index - 1);
        }
        let all = found_from(frames, time_steps, window_steps, stride, row);
        assert(all =~= seq![row as usize] + rest);
        assert(all[index + 1] == rest[index]);
    } else {
        lemma_found_apart(frames, time_steps, window_steps, stride, row + 1, index);
    }
}

proof fn lemma_none_is_missed(
    frames: Seq<FrameIndex>,
    time_steps: Seq<Score>,
    window_steps: int,
    stride: int,
    row: int,
    start: int,
) -> (index: int)
    requires
        frames.len() <= usize::MAX,
        window_steps >= 0,
        stride > 0,
        0 <= row <= start,
        start + window_steps < frames.len(),
        window_valid(frames, time_steps, start, window_steps),
    ensures
        0 <= index < found_from(frames, time_steps, window_steps, stride, row).len(),
        found_from(frames, time_steps, window_steps, stride, row)[index] <= start < found_from(
            frames,
            time_steps,
            window_steps,
            stride,
            row,
        )[index] + stride,
    decreases start - row,
{
    if window_valid(frames, time_steps, row, window_steps) {
        let rest = found_from(frames, time_steps, window_steps, stride, row + stride);
        assert(found_from(frames, time_steps, window_steps, stride, row) =~= seq![row as usize]
            + rest);
        if start < row + stride {
            0
        } else {
            lemma_none_is_missed(frames, time_steps, window_steps, stride, row + stride, start) + 1
        }
    } else {
        lemma_none_is_missed(frames, time_steps, window_steps, stride, row + 1, start)
    }
}

/// The windows that are found lie at least a stride apart, and none is missed: every uninterrupted
/// flight of the length of a window begins less than a stride behind one that is found.
#[verifier::spinoff_prover]
pub proof fn law_windows_are_found_throughout(
    frames: Seq<FrameIndex>,
    time_steps: Seq<Score>,
    window_steps: int,
    stride: int,
    start: int,
)
    requires
        frames.len() <= usize::MAX,
        window_steps >= 0,
        stride > 0,
        0 <= start,
        start + window_steps < frames.len(),
        window_valid(frames, time_steps, start, window_steps),
    ensures
        ({
            let found = found_from(frames, time_steps, window_steps, stride, 0);
            &&& exists|i: int|
                0 <= i < found.len() && #[trigger] found[i] <= start < found[i] + stride
            &&& forall|i: int|
                0 <= i < found.len() - 1 ==> #[trigger] found[i] + stride <= found[i + 1]
        }),
{
    let found = found_from(frames, time_steps, window_steps, stride, 0);
    let index = lemma_none_is_missed(frames, time_steps, window_steps, stride, 0, start);
    assert(found[index] <= start < found[index] + stride);
    assert forall|i: int| 0 <= i < found.len() - 1 implies #[trigger] found[i] + stride <= found[i
        + 1] by {
        lemma_found_apart(frames, time_steps, window_steps, stride, 0, i);
    }
}

/// Where more windows are found than are wanted, those that are chosen are spread evenly over all of
/// them: number `index` of them is the one at which the same part of all windows lies before it as
/// of the chosen ones. Where no more are found, all are chosen.
#[verifier::spinoff_prover]
pub proof fn law_windows_are_spread_evenly(
    found: Seq<usize>,
    max_windows: int,
    index: int,
    place: int,
)
    requires
        0 < max_windows,
    ensures
        found.len() <= max_windows ==> spread(found, max_windows) == found,
        found.len() > max_windows ==> spread(found, max_windows).len() == max_windows,
        found.len() > max_windows && 0 <= index < max_windows && place * max_windows <= index
            * found.len() < (place + 1) * max_windows ==> 0 <= place < found.len() && spread(
            found,
            max_windows,
        )[index] == found[place],
{
    let count = found.len() as int;
    if count > max_windows && 0 <= index < max_windows && place * max_windows <= index * count < (
    place + 1) * max_windows {
        lemma_spread_index(index, count, max_windows);
        let product = index * count;
        assert((place + 1) * max_windows == place * max_windows + max_windows) by (nonlinear_arith);
        vstd::arithmetic::div_mod::lemma_fundamental_div_mod_converse(
            product,
            max_windows,
            place,
            product - place * max_windows,
        );
    }
}

/// Two neighbouring windows of those that are chosen stand as far apart among all as the numbers of
/// both require, rounded down or up, so that the last lies in the last part of the data.
#[verifier::spinoff_prover]
pub proof fn law_chosen_windows_reach_the_end(
    count: int,
    max_windows: int,
    index: int,
    place: int,
    next: int,
)
    requires
        0 < max_windows < count,
        0 <= index,
        index + 1 < max_windows,
        place * max_windows <= index * count < (place + 1) * max_windows,
        next * max_windows <= (index + 1) * count < (next + 1) * max_windows,
    ensures
        (next - place - 1) * max_windows < count < (next - place + 1) * max_windows,
        index + 2 == max_windows ==> (count - next - 1) * max_windows < count,
{
    assert((index + 1) * count == index * count + count) by (nonlinear_arith);
    assert((place + 1) * max_windows == place * max_windows + max_windows) by (nonlinear_arith);
    assert((next + 1) * max_windows == next * max_windows + max_windows) by (nonlinear_arith);
    assert((next - place - 1) * max_windows == next * max_windows - place * max_windows
        - max_windows) by (nonlinear_arith);
    assert((next - place + 1) * max_windows == next * max_windows - place * max_windows
        + max_windows) by (nonlinear_arith);
    assert((count - next - 1) * max_windows == count * max_windows - next * max_windows
        - max_windows) by (nonlinear_arith);
    if index + 2 == max_windows {
        assert((index + 1) * count == max_windows * count - count) by (nonlinear_arith)
            requires
                index + 2 == max_windows,
        ;
        assert(count * max_windows == max_windows * count) by (nonlinear_arith);
    }
}

/// The first of the trial totals that is the smallest seen so far, below the current total.
pub open spec fn best_trial(current: Score, totals: Seq<Score>) -> (Option<int>, Score)
    decreases totals.len(),
{
    if totals.len() == 0 {
        (None, current)
    } else {
        let (best, least) = best_trial(current, totals.drop_last());
        if totals.last().below(least) {
            (Some(totals.len() - 1), totals.last())
        } else {
            (best, least)
        }
    }
}

/// Chooses among trial settings the one of least total: only one that improves on the current
/// total, and the first of equal ones.
pub fn tune_scalar(current: Score, totals: &Vec<Score>) -> (best: Option<usize>)
    ensures
        match best {
            Some(index) => best_trial(current, totals@).0 == Some(index as int) && index
                < totals@.len(),
            None => best_trial(current, totals@).0 is None,
        },
{
    let mut best: Option<usize> = None;
    let mut least: Score = current;
    let mut index: usize = 0;
    assert(totals@.take(0) =~= Seq::<Score>::empty());
    while index < totals.len()
        invariant
            index <= totals@.len(),
            best_trial(current, totals@.take(index as int)) == (
                match best {
                    Some(place) => Some(place as int),
                    None => None::<int>,
                },
                least,
            ),
            best matches Some(place) ==> place < totals@.len(),
        decreases totals@.len() - index,
    {
        assert(totals@.take(index + 1).drop_last() =~= totals@.take(index as int));
        assert(totals@.take(index + 1).last() == totals@[index as int]);
        if totals[index].is_below(least) {
            best = Some(index);
            least = totals[index];
        }
        index = index + 1;
    }
    assert(totals@.take(index as int) =~= totals@);
    best
}

/// The signs of the roll, pitch and yaw rates in the order in which a fit tries them; one that is set
/// is positive.
pub open spec fn sign_trials() -> Seq<(bool, bool, bool)> {
    seq![
        (false, false, true),
        (true, true, false),
        (false, true, true),
        (true, false, true),
        (false, false, false),
        (true, true, true),
        (false, true, false),
        (true, false, false),
    ]
}

/// Lists the signs that a fit tries.
pub fn sign_sets() -> (sets: Vec<(bool, bool, bool)>)
    ensures
        sets@ == sign_trials(),
{
    let mut sets: Vec<(bool, bool, bool)> = Vec::new();
    sets.push((false, false, true));
    sets.push((true, true, false));
    sets.push((false, true, true));
    sets.push((true, false, true));
    sets.push((false, false, false));
    sets.push((true, true, true));
    sets.push((false, true, false));
    sets.push((true, false, false));
    assert(sets@ =~= sign_trials());
    sets
}

/// Every combination of signs is tried once.
pub proof fn law_all_signs_are_tried(roll: bool, pitch: bool, yaw: bool)
    ensures
        sign_trials().contains((roll, pitch, yaw)),
        sign_trials().no_duplicates(),
{
    let trials = sign_trials();
    assert(trials[0] == (false, false, true));
    assert(trials[1] == (true, true, false));
    assert(trials[2] == (false, true, true));
    assert(trials[3] == (true, false, true));
    assert(trials[4] == (false, false, false));
    assert(trials[5] == (true, true, true));
    assert(trials[6] == (false, true, false));
    assert(trials[7] == (true, false, false));
}

/// The key of the change of the total under which a fit has settled, a hundred thousandth as a
/// 32-bit float has it.
pub const SETTLED_KEY: i64 = 0x3ee4_f8b5_8000_0000;

/// A pass that changes the total by so little is the last.
pub open spec fn settled(change: Score) -> bool {
    change.below(Score::Key(SETTLED_KEY))
}

/// A fit of at most `passes` passes goes on behind the first `done` of them, where the total changed
/// by `changes`, pass for pass.
pub open spec fn pass_follows(done: int, passes: int, changes: Seq<Score>) -> bool {
    &&& done < passes
    &&& forall|pass: int| 0 <= pass < done ==> !settled(#[trigger] changes[pass])
}

/// Another pass follows, by how much the last one changed the total.
pub open spec fn goes_on(done: int, passes: int, change: Option<Score>) -> bool {
    done < passes && match change {
        Some(amount) => !settled(amount),
        None => true,
    }
}

/// The answer behind each pass is that of the whole fit: it goes on while passes are left and none of
/// those made has settled.
pub proof fn law_fits_are_asked_pass_by_pass(done: int, passes: int, changes: Seq<Score>)
    requires
        0 <= done <= changes.len(),
        done > 0 ==> pass_follows(done - 1, passes, changes),
    ensures
        pass_follows(done, passes, changes) <==> goes_on(
            done,
            passes,
            if done == 0 {
                None
            } else {
                Some(changes[done - 1])
            },
        ),
        done >= passes ==> !pass_follows(done, passes, changes),
{
}

/// Whether another pass follows the first `done` of at most `passes`, by how much the last of them
/// changed the total; none has before the first pass.
pub fn another_pass(done: usize, passes: usize, change: Option<Score>) -> (answer: bool)
    ensures
        answer == goes_on(done as int, passes as int, change),
        answer == (done < passes && match change {
            Some(amount) => !settled(amount),
            None => true,
        }),
{
    done < passes && match change {
        Some(amount) => !amount.is_below(Score::Key(SETTLED_KEY)),
        None => true,
    }
}

/// A fit that asks behind each pass whether another follows goes on exactly while passes are left
/// and none of those made has settled.
pub proof fn law_fit_ends_where_it_settles(done: int, passes: int, changes: Seq<Score>)
    requires
        0 < done <= changes.len(),
        pass_follows(done - 1, passes, changes),
    ensures
        pass_follows(done, passes, changes) <==> done < passes && !settled(changes[done - 1]),
{
}

/// The chosen trial improves on the current total, and no other trial lies below it.
pub proof fn law_tuning_never_worsens(current: Score, totals: Seq<Score>)
    ensures
        ({
            let (best, least) = best_trial(current, totals);
            &&& match best {
                Some(index) => 0 <= index < totals.len() && totals[index] == least && least.below(
                    current,
                ),
                None => least == current,
            }
            &&& forall|i: int| 0 <= i < totals.len() ==> !(#[trigger] totals[i]).below(least)
        }),
    decreases totals.len(),
{
    if totals.len() > 0 {
        let before = totals.drop_last();
        law_tuning_never_worsens(current, before);
        let (best, least) = best_trial(current, before);
        assert(totals.last() == totals[totals.len() - 1]);
        assert forall|i: int| 0 <= i < totals.len() implies !(#[trigger] totals[i]).below(
            best_trial(current, totals).1,
        ) by {
            if i < before.len() {
                assert(totals[i] == before[i]);
                assert(!before[i].below(least));
            }
        }
    }
}

/// The chosen trial is the first of the best: no earlier one is as good.
pub proof fn law_first_best_trial_is_chosen(current: Score, totals: Seq<Score>)
    ensures
        best_trial(current, totals).0 matches Some(index) ==> forall|i: int|
            0 <= i < index ==> !(#[trigger] totals[i]).at_most(totals[index]),
        best_trial(current, totals).0 is None ==> forall|i: int|
            0 <= i < totals.len() ==> !(#[trigger] totals[i]).below(current),
    decreases totals.len(),
{
    law_tuning_never_worsens(current, totals);
    if totals.len() > 0 {
        let before = totals.drop_last();
        law_first_best_trial_is_chosen(current, before);
        law_tuning_never_worsens(current, before);
        let (best, least) = best_trial(current, before);
        if totals.last().below(least) {
            assert forall|i: int| 0 <= i < totals.len() - 1 implies !(
            #[trigger] totals[i]).at_most(totals.last()) by {
                assert(before[i] == totals[i]);
            }
        } else if let Some(index) = best {
            assert forall|i: int| 0 <= i < index implies !(#[trigger] totals[i]).at_most(
                totals[index],
            ) by {
                assert(before[i] == totals[i]);
                assert(before[index] == totals[index]);
            }
        }
    }
}

/// A pass has settled where it changes the total by less than a hundred-thousandth, and only there.
pub proof fn law_small_changes_settle(change: i64)
    ensures
        settled(Score::Key(change)) <==> change < 0x3ee4_f8b5_8000_0000,
        !settled(Score::NotANumber),
{
}

/// The settings of the tool.
#[derive(Debug)]
pub struct Args {
    pub dataset_dir: String,
    pub window_steps: usize,
    pub max_windows: usize,
    pub stride: usize,
    pub sim_hz: Score,
    pub passes: usize,
}

/// The key of the default simulation rate, 1000.
pub const DEFAULT_SIM_HZ_KEY: i64 = 0x408f_4000_0000_0000;

/// What the command line asks for.
#[derive(Debug)]
pub enum Request {
    Help,
    Run(Args),
}

/// Why the tool does not run.
#[derive(Clone, Copy, PartialEq, Eq, Structural, Debug)]
pub enum ArgsError {
    Line(CliError),
    WindowSteps,
    MaxWindows,
    Stride,
    SimHz,
}

/// The flags of the tool.
pub open spec fn flag_table() -> Seq<FlagSpec> {
    seq![
        FlagSpec { name: "--dataset-dir", kind: ValueKind::Text },
        FlagSpec { name: "--window-steps", kind: ValueKind::Size },
        FlagSpec { name: "--max-windows", kind: ValueKind::Size },
        FlagSpec { name: "--stride", kind: ValueKind::Size },
        FlagSpec { name: "--sim-hz", kind: ValueKind::Fraction },
        FlagSpec { name: "--passes", kind: ValueKind::Size },
    ]
}

fn flags() -> (table: Vec<FlagSpec>)
    ensures
        table@ == flag_table(),
{
    let mut table: Vec<FlagSpec> = Vec::new();
    table.push(FlagSpec { name: "--dataset-dir", kind: ValueKind::Text });
    table.push(FlagSpec { name: "--window-steps", kind: ValueKind::Size });
    table.push(FlagSpec { name: "--max-windows", kind: ValueKind::Size });
    table.push(FlagSpec { name: "--stride", kind: ValueKind::Size });
    table.push(FlagSpec { name: "--sim-hz", kind: ValueKind::Fraction });
    table.push(FlagSpec { name: "--passes", kind: ValueKind::Size });
    assert(table@ =~= flag_table());
    table
}

/// The first setting of a command line that is out of range.
pub open spec fn refusal(tokens: Seq<Token>, values: Seq<Option<usize>>) -> Option<ArgsError> {
    if size_or(tokens, values[1], 30) == 0 {
        Some(ArgsError::WindowSteps)
    } else if size_or(tokens, values[2], 512) == 0 {
        Some(ArgsError::MaxWindows)
    } else if size_or(tokens, values[3], 25) == 0 {
        Some(ArgsError::Stride)
    } else if !fraction_or(tokens, values[4], Score::Key(DEFAULT_SIM_HZ_KEY)).over_key(0) {
        Some(ArgsError::SimHz)
    } else {
        None
    }
}

impl Args {
    /// The settings are those of a command line whose values stand at `values`.
    pub open spec fn taken_from(
        self,
        tokens: Seq<Token>,
        values: Seq<Option<usize>>,
        home: Option<&str>,
    ) -> bool {
        &&& self.dataset_dir@ == text_or(tokens, values[0], default_dir(home))
        &&& self.window_steps == size_or(tokens, values[1], 30)
        &&& self.max_windows == size_or(tokens, values[2], 512)
        &&& self.stride == size_or(tokens, values[3], 25)
        &&& self.sim_hz == fraction_or(tokens, values[4], Score::Key(DEFAULT_SIM_HZ_KEY))
        &&& self.passes == size_or(tokens, values[5], 3)
    }

    /// Reads and checks the command line.
    pub fn parse(tokens: &Vec<Token>, home: Option<&str>) -> (result: Result<Request, ArgsError>)
        ensures
            match read_line(flag_table(), true, tokens@) {
                Reading::Help => result matches Ok(Request::Help),
                Reading::Failed(error) => result matches Err(ArgsError::Line(found)) && found
                    == error,
                Reading::Values(values) => match result {
                    Ok(Request::Run(args)) => refusal(tokens@, values) is None && args.taken_from(
                        tokens@,
                        values,
                        home,
                    ),
                    Ok(Request::Help) => false,
                    Err(error) => refusal(tokens@, values) == Some(error),
                },
            },
    {
        let table = flags();
        let values = match scan(&table, true, tokens) {
            Err(error) => {
                return Err(ArgsError::Line(error));
            },
            Ok(None) => {
                return Ok(Request::Help);
            },
            Ok(Some(values)) => values,
        };
        let args = Args {
            dataset_dir: take_text(tokens, values[0], default_dataset_dir(home).as_str()),
            window_steps: take_size(tokens, values[1], 30),
            max_windows: take_size(tokens, values[2], 512),
            stride: take_size(tokens, values[3], 25),
            sim_hz: take_fraction(tokens, values[4], Score::Key(DEFAULT_SIM_HZ_KEY)),
            passes: take_size(tokens, values[5], 3),
        };
        if args.window_steps == 0 {
            return Err(ArgsError::WindowSteps);
        }
        if args.max_windows == 0 {
            return Err(ArgsError::MaxWindows);
        }
        if args.stride == 0 {
            return Err(ArgsError::Stride);
        }
        if !args.sim_hz.is_over_key(0) {
            return Err(ArgsError::SimHz);
        }
        Ok(Request::Run(args))
    }
}

/// Each flag sets its own setting, and what is not set is as it is by default.
pub proof fn law_flags_set_their_settings(
    args: Args,
    tokens: Seq<Token>,
    values: Seq<Option<usize>>,
    home: Option<&str>,
    place: usize,
    number: nat,
)
    requires
        args.taken_from(tokens, values, home),
        number_up_to(tokens[place as int].text@, usize::MAX as nat) == Some(number),
    ensures
        flag_table()[0].name@ == "--dataset-dir"@,
        flag_table()[1].name@ == "--window-steps"@,
        flag_table()[2].name@ == "--max-windows"@,
        flag_table()[3].name@ == "--stride"@,
        flag_table()[4].name@ == "--sim-hz"@,
        flag_table()[5].name@ == "--passes"@,
        values[0] == Some(place) ==> args.dataset_dir@ == tokens[place as int].text@,
        values[1] == Some(place) ==> args.window_steps == number,
        values[2] == Some(place) ==> args.max_windows == number,
        values[3] == Some(place) ==> args.stride == number,
        values[4] == Some(place) && tokens[place as int].fraction is Some ==> args.sim_hz
            == tokens[place as int].fraction->0,
        values[5] == Some(place) ==> args.passes == number,
        values[1] is None ==> args.window_steps == 30,
        values[2] is None ==> args.max_windows == 512,
        values[3] is None ==> args.stride == 25,
        values[4] is None ==> args.sim_hz == Score::Key(0x408f_4000_0000_0000),
        values[5] is None ==> args.passes == 3,
        refusal(tokens, values) is None <==> args.window_steps > 0 && args.max_windows > 0
            && args.stride > 0 && args.sim_hz.over_key(0),
{
}

/// The data set that is fitted by default.
pub open spec fn default_dir(home: Option<&str>) -> Seq<char> {
    stored(home, "le-wm-nv-data"@, "drone-racing-autonomous-100hz-pose16"@)
}

/// Names the data set that is fitted by default.
pub fn default_dataset_dir(home: Option<&str>) -> (path: String)
    ensures
        path@ == default_dir(home),
{
    stored_dir(home, "le-wm-nv-data", "drone-racing-autonomous-100hz-pose16")
}

} // verus!
