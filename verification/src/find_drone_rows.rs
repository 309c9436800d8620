//! Search of recorded flights for rows that make good starts of benchmarks.

use crate::batching::{batch_count, batches_for, min_of};
use crate::paths::{stored, stored_dir};
use crate::ranking::{flipped, items, sorted_order, sorted_order_descending, stable_order};
use vstd::prelude::*;

verus! {

/// The settings of the command line.
#[derive(Clone, Copy, PartialEq, Eq, Structural, Debug)]
pub struct CheckedArgs {
    pub history_steps: usize,
    pub horizon_steps: usize,
    pub top_k: usize,
    pub stride: usize,
}

impl CheckedArgs {
    /// The message of the first check that fails.
    pub open spec fn refusal(self) -> Option<Seq<char>> {
        if self.history_steps < 2 {
            Some("--history-steps must be at least two"@)
        } else if self.horizon_steps == 0 {
            Some("--horizon-steps must be greater than zero"@)
        } else if self.top_k == 0 {
            Some("--top-k must be greater than zero"@)
        } else if self.stride == 0 {
            Some("--stride must be greater than zero"@)
        } else {
            None
        }
    }
}

/// Checks the settings of the command line, in order.
pub fn validate_args(args: &CheckedArgs) -> (result: Result<(), &'static str>)
    ensures
        match result {
            Ok(()) => args.refusal() is None,
            Err(message) => args.refusal() == Some(message@),
        },
{
    if args.history_steps < 2 {
        return Err("--history-steps must be at least two");
    }
    if args.horizon_steps == 0 {
        return Err("--horizon-steps must be greater than zero");
    }
    if args.top_k == 0 {
        return Err("--top-k must be greater than zero");
    }
    if args.stride == 0 {
        return Err("--stride must be greater than zero");
    }
    Ok(())
}

/// Settings are accepted exactly where each of them is in its range.
pub proof fn law_accepted_settings_are_in_range(args: CheckedArgs)
    ensures
        args.refusal() is None <==> {
            &&& args.history_steps >= 2
            &&& args.horizon_steps > 0
            &&& args.top_k > 0
            &&& args.stride > 0
        },
{
}

/// The rows that a candidate is judged by.
#[derive(Clone, Copy, PartialEq, Eq, Structural, Debug)]
pub struct RowWindow {
    pub row: usize,
    /// The last row of the history.
    pub current_row: usize,
    /// The last row of the horizon behind it.
    pub future_end_row: usize,
}

/// The window of a row.
pub open spec fn window_of(row: int, history_steps: int, horizon_steps: int) -> RowWindow {
    RowWindow {
        row: row as usize,
        current_row: (row + history_steps - 1) as usize,
        future_end_row: (row + history_steps - 1 + horizon_steps) as usize,
    }
}

/// What is found of a row that is scanned.
#[derive(Clone, Copy, PartialEq, Eq, Structural, Debug)]
pub enum RowReading {
    /// The row can be judged by its window.
    Window(RowWindow),
    /// The window runs out of the data or into another episode.
    Apart,
    /// The frame at `frame` cannot be read.
    Unreadable { row: usize, frame: usize },
}

/// What is found of a row whose window lies in the data, where its frames before `at` have been
/// read: the first one that cannot be read or is of another episode decides.
pub open spec fn reading_from(episodes: Seq<Option<i64>>, window: RowWindow, at: int) -> RowReading
    decreases window.future_end_row + 1 - at,
{
    if at > window.future_end_row {
        RowReading::Window(window)
    } else if episodes[at] is None {
        RowReading::Unreadable { row: window.row, frame: at as usize }
    } else if episodes[at] != episodes[window.current_row as int] {
        RowReading::Apart
    } else {
        reading_from(episodes, window, at + 1)
    }
}

/// What is found of a row. The first, the current and the last frame of its window are read before
/// those of the horizon.
pub open spec fn reading_of(
    episodes: Seq<Option<i64>>,
    row: int,
    history_steps: int,
    horizon_steps: int,
) -> RowReading {
    let window = window_of(row, history_steps, horizon_steps);
    let current = row + history_steps - 1;
    let last = current + horizon_steps;
    if last >= episodes.len() {
        RowReading::Apart
    } else if episodes[row] is None {
        RowReading::Unreadable { row: row as usize, frame: row as usize }
    } else if episodes[current] is None {
        RowReading::Unreadable { row: row as usize, frame: current as usize }
    } else if episodes[last] is None {
        RowReading::Unreadable { row: row as usize, frame: last as usize }
    } else if episodes[row] != episodes[current] || episodes[current] != episodes[last] {
        RowReading::Apart
    } else {
        reading_from(episodes, window, current)
    }
}

/// Reads the frames of a row's window, each given by its episode or by none where it cannot be read.
pub fn row_window(
    episodes: &Vec<Option<i64>>,
    row: usize,
    history_steps: usize,
    horizon_steps: usize,
) -> (reading: RowReading)
    requires
        history_steps > 0,
        row + history_steps - 1 + horizon_steps <= usize::MAX,
    ensures
        reading == reading_of(episodes@, row as int, history_steps as int, horizon_steps as int),
{
    let current_row: usize = row + (history_steps - 1);
    let future_end_row: usize = current_row + horizon_steps;
    let total: usize = episodes.len();
    if future_end_row >= total {
        return RowReading::Apart;
    }
    let first: i64 = match episodes[row] {
        Some(episode) => episode,
        None => {
            return RowReading::Unreadable { row, frame: row };
        },
    };
    let current: i64 = match episodes[current_row] {
        Some(episode) => episode,
        None => {
            return RowReading::Unreadable { row, frame: current_row };
        },
    };
    let last: i64 = match episodes[future_end_row] {
        Some(episode) => episode,
        None => {
            return RowReading::Unreadable { row, frame: future_end_row };
        },
    };
    if first != current || current != last {
        return RowReading::Apart;
    }
    let window = RowWindow { row, current_row, future_end_row };
    let mut at: usize = current_row;
    while at <= future_end_row
        invariant
            window == (RowWindow { row, current_row, future_end_row }),
            future_end_row < total == episodes@.len(),
            current_row <= at <= future_end_row + 1,
            episodes@[current_row as int] == Some(current),
            reading_of(episodes@, row as int, history_steps as int, horizon_steps as int)
                == reading_from(episodes@, window, at as int),
        decreases future_end_row + 1 - at,
    {
        match episodes[at] {
            None => {
                return RowReading::Unreadable { row, frame: at };
            },
            Some(episode) => {
                if episode != current {
                    return RowReading::Apart;
                }
            },
        }
        at = at + 1;
    }
    RowReading::Window(window)
}

proof fn lemma_reading_from(episodes: Seq<Option<i64>>, window: RowWindow, at: int)
    requires
        0 <= at <= window.future_end_row + 1,
        window.future_end_row < episodes.len(),
        window.current_row < episodes.len(),
        episodes[window.current_row as int] is Some,
    ensures
        match reading_from(episodes, window, at) {
            RowReading::Window(found) => found == window && forall|frame: int|
                at <= frame <= window.future_end_row ==> #[trigger] episodes[frame]
                    == episodes[window.current_row as int],
            RowReading::Apart => exists|frame: int|
                at <= frame <= window.future_end_row && #[trigger] episodes[frame]
                    != episodes[window.current_row as int],
            RowReading::Unreadable { row, frame } => row == window.row && at <= frame
                <= window.future_end_row && episodes[frame as int] is None,
        },
    decreases window.future_end_row + 1 - at,
{
    if at <= window.future_end_row {
        if episodes[at] == episodes[window.current_row as int] {
            lemma_reading_from(episodes, window, at + 1);
        }
    }
}

/// A row is judged by its window exactly where the window lies in the data and its first frame and
/// all from the current one on can be read and belong to one episode. A frame that is reported as
/// unreadable is one of these and cannot be read.
#[verifier::spinoff_prover]
pub proof fn law_windows_lie_in_one_episode(
    episodes: Seq<Option<i64>>,
    row: int,
    history_steps: int,
    horizon_steps: int,
)
    requires
        row >= 0,
        history_steps > 0,
        horizon_steps >= 0,
        row + history_steps - 1 + horizon_steps <= usize::MAX,
    ensures
        ({
            let current = row + history_steps - 1;
            let last = current + horizon_steps;
            let reading = reading_of(episodes, row, history_steps, horizon_steps);
            &&& reading is Window <==> {
                &&& last < episodes.len()
                &&& episodes[row] is Some
                &&& episodes[row] == episodes[current]
                &&& forall|frame: int|
                    current <= frame <= last ==> #[trigger] episodes[frame] == episodes[current]
            }
            &&& reading is Window ==> reading == RowReading::Window(
                window_of(row, history_steps, horizon_steps),
            )
            &&& reading matches RowReading::Unreadable { row: of, frame } ==> of == row && (frame
                == row || current <= frame <= last) && frame < episodes.len()
                && episodes[frame as int] is None
        }),
{
    let current = row + history_steps - 1;
    let last = current + horizon_steps;
    if last < episodes.len() && episodes[current] is Some {
        lemma_reading_from(episodes, window_of(row, history_steps, horizon_steps), current);
    }
}

/// The window of a row begins with it, has the history up to its current row and the horizon behind
/// that.
pub proof fn law_windows_hold_history_and_horizon(row: int, history_steps: int, horizon_steps: int)
    requires
        row >= 0,
        history_steps > 0,
        horizon_steps >= 0,
        row + history_steps - 1 + horizon_steps <= usize::MAX,
    ensures
        window_of(row, history_steps, horizon_steps).row == row,
        window_of(row, history_steps, horizon_steps).current_row - row + 1 == history_steps,
        window_of(row, history_steps, horizon_steps).future_end_row - window_of(
            row,
            history_steps,
            horizon_steps,
        ).current_row == horizon_steps,
{
}

/// A row whose window lies in the data is left out without a word only where two frames of the window
/// that can be read belong to different episodes.
pub proof fn law_rows_are_left_out_for_another_episode(
    episodes: Seq<Option<i64>>,
    row: int,
    history_steps: int,
    horizon_steps: int,
)
    requires
        row >= 0,
        history_steps > 0,
        horizon_steps >= 0,
        row + history_steps - 1 + horizon_steps <= usize::MAX,
        row + history_steps - 1 + horizon_steps < episodes.len(),
        reading_of(episodes, row, history_steps, horizon_steps) is Apart,
    ensures
        exists|first: int, second: int|
            {
                &&& row <= first < second <= row + history_steps - 1 + horizon_steps
                &&& (#[trigger] episodes[first]) is Some
                &&& (#[trigger] episodes[second]) is Some
                &&& episodes[first] != episodes[second]
            },
{
    let current = row + history_steps - 1;
    let last = current + horizon_steps;
    let window = window_of(row, history_steps, horizon_steps);
    if episodes[row] != episodes[current] {
        assert(row < current);
        assert(episodes[row] is Some && episodes[current] is Some);
    } else if episodes[current] != episodes[last] {
        assert(episodes[current] is Some && episodes[last] is Some);
    } else {
        let at = lemma_apart_place(episodes, window, current);
        assert(episodes[current] is Some && episodes[at] is Some);
    }
}

proof fn lemma_apart_place(episodes: Seq<Option<i64>>, window: RowWindow, at: int) -> (place: int)
    requires
        0 <= at,
        reading_from(episodes, window, at) is Apart,
    ensures
        at <= place <= window.future_end_row,
        episodes[place] is Some,
        episodes[place] != episodes[window.current_row as int],
    decreases window.future_end_row + 1 - at,
{
    if episodes[at] is Some && episodes[at] != episodes[window.current_row as int] {
        at
    } else {
        lemma_apart_place(episodes, window, at + 1)
    }
}

/// Reads every `stride`-th of the selected rows.
pub fn scan_rows(
    episodes: &Vec<Option<i64>>,
    rows: &Vec<usize>,
    stride: usize,
    history_steps: usize,
    horizon_steps: usize,
) -> (scanned: Vec<RowReading>)
    requires
        stride > 0,
        history_steps > 0,
        forall|i: int|
            0 <= i < rows@.len() ==> #[trigger] rows@[i] + history_steps - 1
                + horizon_steps <= usize::MAX,
    ensures
        scanned@.len() == batches_for(rows@.len() as int, stride as int),
        forall|i: int|
            0 <= i < scanned@.len() ==> #[trigger] scanned@[i] == reading_of(
                episodes@,
                rows@[i * stride] as int,
                history_steps as int,
                horizon_steps as int,
            ),
{
    let mut scanned: Vec<RowReading> = Vec::new();
    let total: usize = rows.len();
    let count: usize = batch_count(total, stride);
    let mut place: usize = 0;
    while place < count
        invariant
            stride > 0,
            history_steps > 0,
            total == rows@.len(),
            count == batches_for(rows@.len() as int, stride as int),
            place <= count,
            scanned@.len() == place,
            forall|i: int|
                0 <= i < rows@.len() ==> #[trigger] rows@[i] + history_steps - 1
                    + horizon_steps <= usize::MAX,
            forall|i: int|
                0 <= i < scanned@.len() ==> #[trigger] scanned@[i] == reading_of(
                    episodes@,
                    rows@[i * stride] as int,
                    history_steps as int,
                    horizon_steps as int,
                ),
        decreases count - place,
    {
        proof {
            crate::batching::law_batches_are_filled(
                rows@.len() as int,
                place as int,
                stride as int,
            );
            assert(place * stride >= 0) by (nonlinear_arith);
        }
        let row: usize = rows[place * stride];
        scanned.push(row_window(episodes, row, history_steps, horizon_steps));
        place = place + 1;
    }
    scanned
}

/// How many of the scanned rows were skipped; an error where none was scored.
pub fn skipped_rows(scanned: usize, scored: usize) -> (result: Result<usize, &'static str>)
    requires
        scored <= scanned,
    ensures
        match result {
            Ok(skipped) => scored > 0 && skipped == scanned - scored,
            Err(message) => scored == 0 && message@
                == "no candidate rows remain after horizon/episode filtering"@,
        },
{
    if scored == 0 {
        return Err("no candidate rows remain after horizon/episode filtering");
    }
    Ok(scanned - scored)
}

/// Which scores come first.
#[derive(Clone, Copy, PartialEq, Eq, Structural, Debug)]
pub enum Direction {
    Ascending,
    Descending,
}

/// The candidates among the first `count` that have a finite score.
pub open spec fn scored_candidates(keys: Seq<Option<i64>>, count: int) -> Seq<usize>
    decreases count,
{
    if count <= 0 {
        Seq::empty()
    } else {
        let before = scored_candidates(keys, count - 1);
        if keys[count - 1] is Some {
            before.push((count - 1) as usize)
        } else {
            before
        }
    }
}

/// The scores of the given candidates as sorting keys: the better, the smaller.
pub open spec fn merit(
    keys: Seq<Option<i64>>,
    candidates: Seq<usize>,
    direction: Direction,
) -> Seq<i128> {
    let plain = Seq::new(candidates.len(), |i: int| keys[candidates[i] as int]->0 as i128);
    match direction {
        Direction::Ascending => plain,
        Direction::Descending => flipped(plain),
    }
}

/// `ranked` lists the best `top_k` candidates, the best first, those of equal scores as they stand.
pub open spec fn best_ranked(
    keys: Seq<Option<i64>>,
    top_k: int,
    direction: Direction,
    ranked: Seq<usize>,
) -> bool {
    let candidates = scored_candidates(keys, keys.len() as int);
    &&& ranked.len() == min_of(top_k, candidates.len() as int)
    &&& exists|order: Seq<usize>|
        {
            &&& #[trigger] stable_order(merit(keys, candidates, direction), order)
            &&& order.to_multiset() == items(0, candidates.len() as int).to_multiset()
            &&& forall|i: int|
                0 <= i < ranked.len() ==> #[trigger] ranked[i] == candidates[order[i] as int]
        }
}

proof fn lemma_candidates(keys: Seq<Option<i64>>, count: int)
    requires
        0 <= count <= keys.len() <= usize::MAX,
    ensures
        scored_candidates(keys, count).len() <= count,
        forall|i: int|
            0 <= i < scored_candidates(keys, count).len() ==> (
            #[trigger] scored_candidates(keys, count)[i]) < count
                && keys[scored_candidates(keys, count)[i] as int] is Some,
    decreases count,
{
    if count > 0 {
        lemma_candidates(keys, count - 1);
    }
}

/// Ranks candidates by their scores, given as keys that keep their order; a candidate without a
/// finite score has none and is left out. The places of the best come out, at most `top_k`.
pub fn top_by(keys: &Vec<Option<i64>>, top_k: usize, direction: Direction) -> (ranked: Vec<usize>)
    ensures
        best_ranked(keys@, top_k as int, direction, ranked@),
{
    let mut candidates: Vec<usize> = Vec::new();
    let mut plain: Vec<i128> = Vec::new();
    let mut next: usize = 0;
    while next < keys.len()
        invariant
            next <= keys@.len(),
            candidates@ == scored_candidates(keys@, next as int),
            plain@ == merit(keys@, candidates@, Direction::Ascending),
        decreases keys@.len() - next,
    {
        if let Some(key) = keys[next] {
            candidates.push(next);
            plain.push(key as i128);
            assert(plain@ =~= merit(keys@, candidates@, Direction::Ascending));
        }
        next = next + 1;
    }
    let order = match direction {
        Direction::Ascending => sorted_order(&plain),
        Direction::Descending => sorted_order_descending(&plain),
    };
    assert(stable_order(merit(keys@, candidates@, direction), order@));
    let count: usize = if top_k < order.len() {
        top_k
    } else {
        order.len()
    };
    let mut ranked: Vec<usize> = Vec::new();
    let mut place: usize = 0;
    while place < count
        invariant
            place == ranked@.len(),
            place <= count <= order@.len(),
            stable_order(merit(keys@, candidates@, direction), order@),
            forall|i: int|
                0 <= i < ranked@.len() ==> #[trigger] ranked@[i] == candidates@[order@[i] as int],
        decreases count - place,
    {
        assert(order@[place as int] < merit(keys@, candidates@, direction).len());
        ranked.push(candidates[order[place]]);
        place = place + 1;
    }
    ranked
}

/// The ranked candidates have finite scores, and no later one has a better score than an earlier
/// one.
pub proof fn law_ranks_follow_the_scores(
    keys: Seq<Option<i64>>,
    top_k: int,
    direction: Direction,
    ranked: Seq<usize>,
    first: int,
    second: int,
)
    requires
        keys.len() <= usize::MAX,
        best_ranked(keys, top_k, direction, ranked),
        0 <= first < second < ranked.len(),
    ensures
        ranked[first] < keys.len(),
        ranked[second] < keys.len(),
        keys[ranked[first] as int] is Some,
        keys[ranked[second] as int] is Some,
        match direction {
            Direction::Ascending => keys[ranked[first] as int]->0 <= keys[ranked[second] as int]->0,
            Direction::Descending => keys[ranked[first] as int]->0
                >= keys[ranked[second] as int]->0,
        },
{
    let candidates = scored_candidates(keys, keys.len() as int);
    lemma_candidates(keys, keys.len() as int);
    let merits = merit(keys, candidates, direction);
    let order = choose|order: Seq<usize>|
        {
            &&& #[trigger] stable_order(merit(keys, candidates, direction), order)
            &&& order.to_multiset() == items(0, candidates.len() as int).to_multiset()
            &&& forall|i: int|
                0 <= i < ranked.len() ==> #[trigger] ranked[i] == candidates[order[i] as int]
        };
    assert(crate::ranking::comes_before(merits, order[first], order[second]));
    assert(ranked[first] == candidates[order[first] as int]);
    assert(ranked[second] == candidates[order[second] as int]);
    assert(merits[order[first] as int] <= merits[order[second] as int]);
}

proof fn lemma_scored_are_candidates(keys: Seq<Option<i64>>, count: int, candidate: int) -> (place:
    int)
    requires
        0 <= candidate < count <= keys.len() <= usize::MAX,
        keys[candidate] is Some,
    ensures
        0 <= place < scored_candidates(keys, count).len(),
        scored_candidates(keys, count)[place] == candidate,
    decreases count,
{
    if candidate == count - 1 {
        scored_candidates(keys, count).len() - 1
    } else {
        lemma_scored_are_candidates(keys, count - 1, candidate)
    }
}

proof fn lemma_candidates_ascend(keys: Seq<Option<i64>>, count: int, first: int, second: int)
    requires
        0 <= count <= keys.len() <= usize::MAX,
        0 <= first < second < scored_candidates(keys, count).len(),
    ensures
        scored_candidates(keys, count)[first] < scored_candidates(keys, count)[second],
    decreases count,
{
    let before = scored_candidates(keys, count - 1);
    lemma_candidates(keys, count - 1);
    if second < before.len() {
        lemma_candidates_ascend(keys, count - 1, first, second);
    }
}

/// At most `top_k` candidates are ranked, and fewer only where all that have a score are. No candidate
/// that is left out has a better score than one that is ranked, and one with the same score stands
/// behind it.
#[verifier::spinoff_prover]
pub proof fn law_the_best_are_ranked(
    keys: Seq<Option<i64>>,
    top_k: int,
    direction: Direction,
    ranked: Seq<usize>,
    place: int,
    other: usize,
)
    requires
        keys.len() <= usize::MAX,
        top_k >= 0,
        best_ranked(keys, top_k, direction, ranked),
        other < keys.len(),
        keys[other as int] is Some,
        !ranked.contains(other),
    ensures
        ranked.len() == top_k,
        0 <= place < ranked.len() ==> {
            let key = keys[ranked[place] as int]->0;
            let left_out = keys[other as int]->0;
            &&& direction == Direction::Ascending ==> key <= left_out
            &&& direction == Direction::Descending ==> key >= left_out
            &&& key == left_out ==> ranked[place] < other
        },
{
    let candidates = scored_candidates(keys, keys.len() as int);
    lemma_candidates(keys, keys.len() as int);
    let merits = merit(keys, candidates, direction);
    let order = choose|order: Seq<usize>|
        {
            &&& #[trigger] stable_order(merit(keys, candidates, direction), order)
            &&& order.to_multiset() == items(0, candidates.len() as int).to_multiset()
            &&& forall|i: int|
                0 <= i < ranked.len() ==> #[trigger] ranked[i] == candidates[order[i] as int]
        };
    let item = lemma_scored_are_candidates(keys, keys.len() as int, other as int);
    crate::ranking::law_order_lists_every_item(merits, order, item as usize);
    let rank = choose|i: int| 0 <= i < order.len() && order[i] == item as usize;
    if rank < ranked.len() {
        assert(ranked[rank] == candidates[order[rank] as int]);
        assert(ranked.contains(other));
    }
    if 0 <= place < ranked.len() {
        assert(ranked[place] == candidates[order[place] as int]);
        crate::ranking::law_keys_ascend_along_a_stable_order(merits, order, place, rank);
        if merits[order[place] as int] == merits[order[rank] as int] {
            lemma_candidates_ascend(
                keys,
                keys.len() as int,
                order[place] as int,
                order[rank] as int,
            );
        }
    }
}

/// No candidate is ranked twice, and of two with the same score the one that stands first comes
/// first.
#[verifier::spinoff_prover]
pub proof fn law_ties_keep_their_order(
    keys: Seq<Option<i64>>,
    top_k: int,
    direction: Direction,
    ranked: Seq<usize>,
    first: int,
    second: int,
)
    requires
        keys.len() <= usize::MAX,
        best_ranked(keys, top_k, direction, ranked),
        0 <= first < second < ranked.len(),
    ensures
        ranked[first] != ranked[second],
        keys[ranked[first] as int] == keys[ranked[second] as int] ==> ranked[first]
            < ranked[second],
{
    let candidates = scored_candidates(keys, keys.len() as int);
    lemma_candidates(keys, keys.len() as int);
    let merits = merit(keys, candidates, direction);
    let order = choose|order: Seq<usize>|
        {
            &&& #[trigger] stable_order(merit(keys, candidates, direction), order)
            &&& order.to_multiset() == items(0, candidates.len() as int).to_multiset()
            &&& forall|i: int|
                0 <= i < ranked.len() ==> #[trigger] ranked[i] == candidates[order[i] as int]
        };
    crate::ranking::law_keys_ascend_along_a_stable_order(merits, order, first, second);
    assert(ranked[first] == candidates[order[first] as int]);
    assert(ranked[second] == candidates[order[second] as int]);
    crate::ranking::law_order_lists_every_item(merits, order, order[first]);
    if order[first] < order[second] {
        lemma_candidates_ascend(keys, keys.len() as int, order[first] as int, order[second] as int);
    } else {
        lemma_candidates_ascend(keys, keys.len() as int, order[second] as int, order[first] as int);
    }
}

/// One kind of row that is looked for.
#[derive(Clone, Copy, Debug)]
pub struct Category {
    pub name: &'static str,
    pub description: &'static str,
    pub prefer_low_score: bool,
}

impl Category {
    /// Which scores of the category come first.
    pub fn direction(&self) -> (direction: Direction)
        ensures
            direction == if self.prefer_low_score {
                Direction::Ascending
            } else {
                Direction::Descending
            },
    {
        if self.prefer_low_score {
            Direction::Ascending
        } else {
            Direction::Descending
        }
    }
}

/// The names of the categories, in the order of the report.
pub open spec fn category_names() -> Seq<Seq<char>> {
    seq![
        "hover_like"@,
        "clean_cruise"@,
        "body_x_motion"@,
        "body_y_motion"@,
        "body_z_motion"@,
        "yaw_motion"@,
        "action_excitation"@,
        "stress_motion"@,
    ]
}

/// What the categories are for, in the order of the report.
pub open spec fn category_descriptions() -> Seq<Seq<char>> {
    seq![
        "Low-speed, low-angular-rate, low-future-path rows for hold/drift checks."@,
        "Moderate-speed, low-angular-rate rows for in-distribution local-control starts."@,
        "Rows whose recorded future moves mostly along the current body X axis."@,
        "Rows whose recorded future moves mostly along the current body Y axis."@,
        "Rows whose recorded future moves mostly along the current body Z axis."@,
        "Rows with meaningful future body yaw rotation."@,
        "Rows with larger recorded action variation over the scoring horizon."@,
        "High-motion rows for rollout stress tests, not isolated local-control starts."@,
    ]
}

/// Lists the categories: low scores are preferred in the first two, high ones in the others.
pub fn categories() -> (list: Vec<Category>)
    ensures
        list@.len() == 8,
        forall|i: int|
            0 <= i < 8 ==> {
                &&& (#[trigger] list@[i]).name@ == category_names()[i]
                &&& list@[i].description@ == category_descriptions()[i]
                &&& list@[i].prefer_low_score == (i < 2)
            },
{
    let mut list: Vec<Category> = Vec::new();
    list.push(
        Category {
            name: "hover_like",
            description: "Low-speed, low-angular-rate, low-future-path rows for hold/drift checks.",
            prefer_low_score: true,
        },
    );
    list.push(
        Category {
            name: "clean_cruise",
            description:
                "Moderate-speed, low-angular-rate rows for in-distribution local-control starts.",
            prefer_low_score: true,
        },
    );
    list.push(
        Category {
            name: "body_x_motion",
            description: "Rows whose recorded future moves mostly along the current body X axis.",
            prefer_low_score: false,
        },
    );
    list.push(
        Category {
            name: "body_y_motion",
            description: "Rows whose recorded future moves mostly along the current body Y axis.",
            prefer_low_score: false,
        },
    );
    list.push(
        Category {
            name: "body_z_motion",
            description: "Rows whose recorded future moves mostly along the current body Z axis.",
            prefer_low_score: false,
        },
    );
    list.push(
        Category {
            name: "yaw_motion",
            description: "Rows with meaningful future body yaw rotation.",
            prefer_low_score: false,
        },
    );
    list.push(
        Category {
            name: "action_excitation",
            description: "Rows with larger recorded action variation over the scoring horizon.",
            prefer_low_score: false,
        },
    );
    list.push(
        Category {
            name: "stress_motion",
            description:
                "High-motion rows for rollout stress tests, not isolated local-control starts.",
            prefer_low_score: false,
        },
    );
    list
}

/// The data set that is searched by default.
pub fn default_dataset_dir(home: Option<&str>) -> (path: String)
    ensures
        path@ == stored(home, "le-wm-nv-data"@, "drone-racing-autonomous-100hz"@),
{
    stored_dir(home, "le-wm-nv-data", "drone-racing-autonomous-100hz")
}

/// The file that the report is written to by default.
pub fn default_output() -> (path: String)
    ensures
        path@ == "target/drone-eval/row-candidates-h40.json"@,
{
    "target/drone-eval/row-candidates-h40.json".to_owned()
}

/// The categories are reported under their names, in a fixed order; only those of calm rows prefer low
/// scores.
pub proof fn law_categories_have_their_names()
    ensures
        category_names().len() == 8,
        category_descriptions().len() == 8,
        category_names()[0] == "hover_like"@,
        category_names()[1] == "clean_cruise"@,
        category_names()[2] == "body_x_motion"@,
        category_names()[3] == "body_y_motion"@,
        category_names()[4] == "body_z_motion"@,
        category_names()[5] == "yaw_motion"@,
        category_names()[6] == "action_excitation"@,
        category_names()[7] == "stress_motion"@,
{
}

} // verus!
