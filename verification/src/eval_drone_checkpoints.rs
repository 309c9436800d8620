//! Evaluation of the checkpoints of a training run: which ones, and on which flight.

use crate::batching::{batch_count, batches_for, min_of};
use crate::json::{member, parse_json, text_members};
use crate::paths::{stored, stored_dir};
use crate::ranking::{items, sorted_order, stable_order};
use crate::text::{begins_with, ends_in, lines_of, number, number_up_to, padded_decimal, parse_usize,
    split_lines, strip_prefix, strip_suffix, views};
use vstd::prelude::*;

verus! {

/// What stands between the beginning and the ending of a checkpoint's name.
pub open spec fn step_text(name: Seq<char>) -> Option<Seq<char>> {
    let head = "checkpoint-step-"@;
    let tail = ".safetensors"@;
    if begins_with(name, head) && ends_in(name.skip(head.len() as int), tail) {
        Some(name.skip(head.len() as int).take(name.len() - head.len() - tail.len()))
    } else {
        None
    }
}

/// The training step that the name of a checkpoint file carries.
pub open spec fn checkpoint_step(name: Seq<char>) -> Option<nat> {
    match step_text(name) {
        Some(text) => number_up_to(text, usize::MAX as nat),
        None => None,
    }
}

/// Reads the training step from the name of a checkpoint file; other names carry none.
pub fn parse_checkpoint_step(name: &str) -> (step: Option<usize>)
    ensures
        match step {
            Some(number) => checkpoint_step(name@) == Some(number as nat),
            None => checkpoint_step(name@) is None,
        },
{
    match strip_prefix(name, "checkpoint-step-") {
        None => None,
        Some(rest) => match strip_suffix(rest.as_str(), ".safetensors") {
            None => None,
            Some(text) => parse_usize(text.as_str()),
        },
    }
}

/// The step that training writes into the name of a checkpoint is read back from it.
pub proof fn law_checkpoint_names_carry_their_step(step: nat)
    requires
        step <= usize::MAX,
    ensures
        checkpoint_step("checkpoint-step-"@ + padded_decimal(step, 8) + ".safetensors"@) == Some(
            step,
        ),
{
    let head = "checkpoint-step-"@;
    let digits = padded_decimal(step, 8);
    let tail = ".safetensors"@;
    let name = head + digits + tail;
    assert(name.take(head.len() as int) =~= head);
    let rest = name.skip(head.len() as int);
    assert(rest =~= digits + tail);
    assert(rest.skip(rest.len() - tail.len()) =~= tail);
    assert(rest.take(name.len() - head.len() - tail.len()) =~= digits);
    crate::text::law_padded_decimal_reads_back(step, 8);
}

/// Where a checkpoint lies: in the file of that place in the directory's listing, or in the final
/// file.
#[derive(Clone, Copy, PartialEq, Eq, Structural, Debug)]
pub enum CheckpointFile {
    Listed(usize),
    Final,
}

/// A checkpoint to evaluate.
#[derive(Clone, Copy, PartialEq, Eq, Structural, Debug)]
pub struct CheckpointInfo {
    pub step: usize,
    pub file: CheckpointFile,
}

/// The step is to be evaluated: no steps are selected, or it is one of them.
pub open spec fn wanted(selected: Seq<usize>, step: usize) -> bool {
    selected.len() == 0 || selected.contains(step)
}

/// The wanted checkpoints among the first `count` files.
pub open spec fn listed_checkpoints(
    names: Seq<Seq<char>>,
    selected: Seq<usize>,
    count: int,
) -> Seq<CheckpointInfo>
    decreases count,
{
    if count <= 0 {
        Seq::empty()
    } else {
        let before = listed_checkpoints(names, selected, count - 1);
        match checkpoint_step(names[count - 1]) {
            Some(step) if wanted(selected, step as usize) => before.push(
                CheckpointInfo {
                    step: step as usize,
                    file: CheckpointFile::Listed((count - 1) as usize),
                },
            ),
            _ => before,
        }
    }
}

/// The largest step of a list of checkpoints; zero where there is none.
pub open spec fn largest_step(checkpoints: Seq<CheckpointInfo>) -> usize
    decreases checkpoints.len(),
{
    if checkpoints.len() == 0 {
        0
    } else {
        let before = largest_step(checkpoints.drop_last());
        if checkpoints.last().step > before {
            checkpoints.last().step
        } else {
            before
        }
    }
}

/// All wanted checkpoints. `last` is there where the final file is: the step that the run's state
/// gives for it, if it gives one.
pub open spec fn all_checkpoints(
    names: Seq<Seq<char>>,
    selected: Seq<usize>,
    last: Option<Option<usize>>,
) -> Seq<CheckpointInfo> {
    let listed = listed_checkpoints(names, selected, names.len() as int);
    match last {
        None => listed,
        Some(known) => {
            let step = match known {
                Some(step) => step,
                None => largest_step(listed),
            };
            if wanted(selected, step) {
                listed.push(CheckpointInfo { step, file: CheckpointFile::Final })
            } else {
                listed
            }
        },
    }
}

/// The steps of checkpoints as sorting keys.
pub open spec fn step_keys(checkpoints: Seq<CheckpointInfo>) -> Seq<i128> {
    Seq::new(checkpoints.len(), |i: int| checkpoints[i].step as i128)
}

/// `sorted` holds the checkpoints by ascending step, those of one step as they stood.
pub open spec fn sorted_by_step(
    sorted: Seq<CheckpointInfo>,
    checkpoints: Seq<CheckpointInfo>,
) -> bool {
    exists|order: Seq<usize>|
        {
            &&& #[trigger] stable_order(step_keys(checkpoints), order)
            &&& order.to_multiset() == items(0, checkpoints.len() as int).to_multiset()
            &&& sorted.len() == order.len()
            &&& forall|i: int|
                0 <= i < sorted.len() ==> #[trigger] sorted[i] == checkpoints[order[i] as int]
        }
}

fn is_wanted(selected: &Vec<usize>, step: usize) -> (answer: bool)
    ensures
        answer == wanted(selected@, step),
{
    if selected.len() == 0 {
        return true;
    }
    let mut next: usize = 0;
    while next < selected.len()
        invariant
            next <= selected@.len(),
            forall|i: int| 0 <= i < next ==> #[trigger] selected@[i] != step,
        decreases selected@.len() - next,
    {
        if selected[next] == step {
            return true;
        }
        next = next + 1;
    }
    false
}

/// Finds the checkpoints of a run, by ascending step.
///
/// `names` lists the files of its directory, `selected` the steps to evaluate, all where it is
/// empty. `last` is there where the final file is to be evaluated too.
pub fn discover_checkpoints(
    names: &Vec<String>,
    selected: &Vec<usize>,
    last: Option<Option<usize>>,
) -> (sorted: Vec<CheckpointInfo>)
    ensures
        sorted_by_step(sorted@, all_checkpoints(views(names@), selected@, last)),
{
    let mut found: Vec<CheckpointInfo> = Vec::new();
    let ghost texts = views(names@);
    let mut largest: usize = 0;
    let mut next: usize = 0;
    while next < names.len()
        invariant
            next <= names@.len(),
            texts == views(names@),
            found@ == listed_checkpoints(texts, selected@, next as int),
            largest == largest_step(found@),
        decreases names@.len() - next,
    {
        assert(texts[next as int] == names@[next as int]@);
        if let Some(step) = parse_checkpoint_step(names[next].as_str()) {
            if is_wanted(selected, step) {
                let ghost before = found@;
                found.push(CheckpointInfo { step, file: CheckpointFile::Listed(next) });
                assert(found@.drop_last() =~= before);
                if step > largest {
                    largest = step;
                }
            }
        }
        next = next + 1;
    }
    if let Some(known) = last {
        let step: usize = match known {
            Some(step) => step,
            None => largest,
        };
        if is_wanted(selected, step) {
            found.push(CheckpointInfo { step, file: CheckpointFile::Final });
        }
    }
    let ghost all = all_checkpoints(texts, selected@, last);
    assert(found@ =~= all);
    let mut keys: Vec<i128> = Vec::new();
    let mut index: usize = 0;
    while index < found.len()
        invariant
            index <= found@.len(),
            keys@ == step_keys(found@.take(index as int)),
        decreases found@.len() - index,
    {
        keys.push(found[index].step as i128);
        index = index + 1;
        assert(keys@ =~= step_keys(found@.take(index as int)));
    }
    assert(found@.take(index as int) =~= found@);
    let order = sorted_order(&keys);
    let mut sorted: Vec<CheckpointInfo> = Vec::new();
    let mut place: usize = 0;
    while place < order.len()
        invariant
            place <= order@.len(),
            stable_order(step_keys(found@), order@),
            sorted@.len() == place,
            forall|i: int|
                0 <= i < place ==> #[trigger] sorted@[i] == found@[order@[i] as int],
        decreases order@.len() - place,
    {
        assert(order@[place as int] < step_keys(found@).len());
        sorted.push(found[order[place]]);
        place = place + 1;
    }
    sorted
}

/// The checkpoints are evaluated by ascending step.
pub proof fn law_steps_ascend(
    sorted: Seq<CheckpointInfo>,
    checkpoints: Seq<CheckpointInfo>,
    first: int,
    second: int,
)
    requires
        sorted_by_step(sorted, checkpoints),
        0 <= first < second < sorted.len(),
    ensures
        sorted[first].step <= sorted[second].step,
        sorted.len() == checkpoints.len(),
{
    let order = choose|order: Seq<usize>|
        {
            &&& #[trigger] stable_order(step_keys(checkpoints), order)
            &&& order.to_multiset() == items(0, checkpoints.len() as int).to_multiset()
            &&& sorted.len() == order.len()
            &&& forall|i: int|
                0 <= i < sorted.len() ==> #[trigger] sorted[i] == checkpoints[order[i] as int]
        };
    let keys = step_keys(checkpoints);
    assert(crate::ranking::comes_before(keys, order[first], order[second]));
    assert(keys[order[first] as int] == checkpoints[order[first] as int].step);
    assert(keys[order[second] as int] == checkpoints[order[second] as int].step);
}

/// The text at the place of an error is no JSON.
#[derive(Clone, Copy, PartialEq, Eq, Structural, Debug)]
pub struct JsonError {
    pub line: usize,
}

/// The step that the state of a training run gives: an unsigned `global_step`.
pub open spec fn final_step(members: Map<Seq<char>, (bool, Option<u64>)>) -> Option<u64> {
    if members.contains_key("global_step"@) {
        members["global_step"@].1
    } else {
        None
    }
}

/// Reads the step from the state of a training run, if it gives one.
pub fn training_final_step(text: &str) -> (result: Result<Option<u64>, JsonError>)
    ensures
        match text_members(text@) {
            Some(members) => result == Ok::<Option<u64>, JsonError>(final_step(members)),
            None => result == Err::<Option<u64>, JsonError>(JsonError { line: 0 }),
        },
{
    match parse_json(text) {
        Ok(value) => Ok(
            match member(&value, "global_step") {
                Some((_, step)) => step,
                None => None,
            },
        ),
        Err(_) => Err(JsonError { line: 0 }),
    }
}

/// The step of a metrics entry that also gives an elapsed time.
pub open spec fn timed_step(members: Map<Seq<char>, (bool, Option<u64>)>) -> Option<u64> {
    if members.contains_key("step"@) && members.contains_key("elapsed_sec"@)
        && members["elapsed_sec"@].0 {
        members["step"@].1
    } else {
        None
    }
}

/// What a metrics entry says of the elapsed time: the step that it belongs to, if it gives both.
pub fn elapsed_step(
    step: Option<(bool, Option<u64>)>,
    elapsed: Option<(bool, Option<u64>)>,
) -> (found: Option<u64>)
    ensures
        found == match (step, elapsed) {
            (Some((_, Some(number))), Some((true, _))) => Some(number),
            _ => None,
        },
{
    match (step, elapsed) {
        (Some((_, Some(number))), Some((true, _))) => Some(number),
        _ => None,
    }
}

/// The last of the first `count` lines that gives the elapsed time of a step.
pub open spec fn last_timed_line(lines: Seq<Seq<char>>, step: u64, count: int) -> Option<int>
    decreases count,
{
    if count <= 0 {
        None
    } else if text_members(lines[count - 1]) matches Some(members) && timed_step(members) == Some(
        step,
    ) {
        Some(count - 1)
    } else {
        last_timed_line(lines, step, count - 1)
    }
}

/// The lines from the first to the last are JSON.
pub open spec fn all_json(lines: Seq<Seq<char>>, count: int) -> bool {
    forall|i: int| 0 <= i < count ==> text_members(#[trigger] lines[i]) is Some
}

/// For each step of the metrics the line that gives its elapsed time.
pub open spec fn times_listed(
    times: Seq<(u64, usize)>,
    lines: Seq<Seq<char>>,
    count: int,
) -> bool {
    &&& forall|i: int, j: int|
        0 <= i < j < times.len() ==> (#[trigger] times[i]).0 != (#[trigger] times[j]).0
    &&& forall|i: int|
        0 <= i < times.len() ==> last_timed_line(lines, (#[trigger] times[i]).0, count) == Some(
            times[i].1 as int,
        )
    &&& forall|step: u64| #[trigger]
        last_timed_line(lines, step, count) is Some ==> exists|i: int|
            0 <= i < times.len() && (#[trigger] times[i]).0 == step
}

/// Finds for each step of a metrics file, which holds one JSON object a line, the line that gives
/// its elapsed time; a later line replaces an earlier one.
pub fn training_elapsed_by_step(text: &str) -> (result: Result<Vec<(u64, usize)>, JsonError>)
    ensures
        ({
            let lines = lines_of(text@);
            match result {
                Ok(times) => all_json(lines, lines.len() as int) && times_listed(
                    times@,
                    lines,
                    lines.len() as int,
                ),
                Err(error) => error.line < lines.len() && text_members(lines[error.line as int]) is
                    None && all_json(lines, error.line as int),
            }
        }),
{
    let lines = split_lines(text);
    let ghost all = lines_of(text@);
    let mut times: Vec<(u64, usize)> = Vec::new();
    let mut line: usize = 0;
    while line < lines.len()
        invariant
            line <= lines@.len(),
            views(lines@) == all,
            all == lines_of(text@),
            all_json(all, line as int),
            times_listed(times@, all, line as int),
        decreases lines@.len() - line,
    {
        assert(views(lines@)[line as int] == lines@[line as int]@);
        let value = match parse_json(lines[line].as_str()) {
            Ok(value) => value,
            Err(_) => {
                return Err(JsonError { line });
            },
        };
        let ghost members = crate::json::members(value);
        let found = elapsed_step(member(&value, "step"), member(&value, "elapsed_sec"));
        assert(found == timed_step(members));
        let ghost before = times@;
        if let Some(step) = found {
            let mut place: usize = 0;
            while place < times.len() && times[place].0 != step
                invariant
                    place <= times@.len(),
                    times@ == before,
                    forall|i: int| 0 <= i < place ==> (#[trigger] times@[i]).0 != step,
                decreases times@.len() - place,
            {
                place = place + 1;
            }
            if place < times.len() {
                times.set(place, (step, line));
            } else {
                times.push((step, line));
            }
            proof {
                lemma_time_recorded(before, times@, all, line as int, step, place as int);
            }
        } else {
            proof {
                assert forall|s: u64| #[trigger]
                    last_timed_line(all, s, line + 1) == last_timed_line(all, s, line as int) by {}
            }
        }
        line = line + 1;
    }
    Ok(times)
}

proof fn lemma_time_recorded(
    before: Seq<(u64, usize)>,
    after: Seq<(u64, usize)>,
    lines: Seq<Seq<char>>,
    line: int,
    step: u64,
    place: int,
)
    requires
        times_listed(before, lines, line),
        0 <= line < lines.len(),
        line <= usize::MAX,
        text_members(lines[line]) matches Some(members) && timed_step(members) == Some(step),
        0 <= place <= before.len(),
        forall|i: int| 0 <= i < place ==> (#[trigger] before[i]).0 != step,
        place < before.len() ==> before[place].0 == step && after == before.update(
            place,
            (step, line as usize),
        ),
        place == before.len() ==> after == before.push((step, line as usize)),
    ensures
        times_listed(after, lines, line + 1),
{
    assert forall|i: int, j: int| 0 <= i < j < after.len() implies (#[trigger] after[i]).0 != (
    #[trigger] after[j]).0 by {
        if j < before.len() {
            assert(before[i].0 != before[j].0);
            assert(after[i].0 == before[i].0 && after[j].0 == before[j].0);
        } else {
            assert(after[i] == before[i]);
        }
    }
    assert forall|i: int| 0 <= i < after.len() implies last_timed_line(
        lines,
        (#[trigger] after[i]).0,
        line + 1,
    ) == Some(after[i].1 as int) by {
        if i != place {
            assert(after[i] == before[i]);
            if i > place {
                assert(before[place].0 != before[i].0);
            }
        }
    }
    assert forall|s: u64| #[trigger] last_timed_line(lines, s, line + 1) is Some implies exists|
        i: int,
    |
        0 <= i < after.len() && (#[trigger] after[i]).0 == s by {
        if s == step {
            assert(after[place].0 == s);
        } else {
            assert(last_timed_line(lines, s, line) is Some);
            let i = choose|i: int| 0 <= i < before.len() && (#[trigger] before[i]).0 == s;
            assert(after[i].0 == s);
        }
    }
}

/// The row at which a replay that starts at `row` ends.
pub open spec fn replay_end(row: int, history_steps: int, horizon_steps: int) -> int {
    row + history_steps - 1 + horizon_steps
}

/// The replay that starts at `row` stays in the data and in its episode.
pub open spec fn replayable(
    episodes: Seq<i64>,
    row: int,
    history_steps: int,
    horizon_steps: int,
) -> bool {
    let end = replay_end(row, history_steps, horizon_steps);
    end < episodes.len() && episodes[end] == episodes[row]
}

/// Whether a replay can start at a row; nothing where there is no such row.
pub fn replay_row_has_horizon(
    episodes: &Vec<i64>,
    row: usize,
    history_steps: usize,
    horizon_steps: usize,
) -> (answer: Option<bool>)
    requires
        history_steps > 0,
        row + history_steps - 1 + horizon_steps <= usize::MAX,
    ensures
        answer == if row < episodes@.len() {
            Some(replayable(episodes@, row as int, history_steps as int, horizon_steps as int))
        } else {
            None
        },
{
    if row >= episodes.len() {
        return None;
    }
    let end: usize = row + (history_steps - 1) + horizon_steps;
    if end >= episodes.len() {
        return Some(false);
    }
    Some(episodes[end] == episodes[row])
}

/// The rows among the first `count` at which a replay can start.
pub open spec fn replay_rows_of(
    episodes: Seq<i64>,
    rows: Seq<usize>,
    history_steps: int,
    horizon_steps: int,
    count: int,
) -> Seq<usize>
    decreases count,
{
    if count <= 0 {
        Seq::empty()
    } else {
        let before = replay_rows_of(episodes, rows, history_steps, horizon_steps, count - 1);
        let row = rows[count - 1];
        if row < episodes.len() && replayable(episodes, row as int, history_steps, horizon_steps) {
            before.push(row)
        } else {
            before
        }
    }
}

/// Lists the rows at which a replay can start.
pub fn replay_rows(
    episodes: &Vec<i64>,
    rows: &Vec<usize>,
    history_steps: usize,
    horizon_steps: usize,
) -> (found: Vec<usize>)
    requires
        history_steps > 0,
        forall|i: int|
            0 <= i < rows@.len() ==> #[trigger] rows@[i] + history_steps - 1
                + horizon_steps <= usize::MAX,
    ensures
        found@ == replay_rows_of(
            episodes@,
            rows@,
            history_steps as int,
            horizon_steps as int,
            rows@.len() as int,
        ),
{
    let mut found: Vec<usize> = Vec::new();
    let mut next: usize = 0;
    while next < rows.len()
        invariant
            next <= rows@.len(),
            history_steps > 0,
            forall|i: int|
                0 <= i < rows@.len() ==> #[trigger] rows@[i] + history_steps - 1
                    + horizon_steps <= usize::MAX,
            found@ == replay_rows_of(
                episodes@,
                rows@,
                history_steps as int,
                horizon_steps as int,
                next as int,
            ),
        decreases rows@.len() - next,
    {
        let row: usize = rows[next];
        if let Some(true) = replay_row_has_horizon(episodes, row, history_steps, horizon_steps) {
            found.push(row);
        }
        next = next + 1;
    }
    found
}

/// The place of the largest key, the last of equal ones.
pub open spec fn last_largest(keys: Seq<i64>, place: int) -> bool {
    &&& 0 <= place < keys.len()
    &&& forall|i: int| 0 <= i < keys.len() ==> #[trigger] keys[i] <= keys[place]
    &&& forall|i: int| place < i < keys.len() ==> #[trigger] keys[i] < keys[place]
}

/// Chooses the replay of the longest path, given the paths' lengths as keys that keep their order.
pub fn select_replay_row(rows: &Vec<usize>, lengths: &Vec<i64>) -> (result: Result<
    usize,
    &'static str,
>)
    requires
        rows@.len() == lengths@.len(),
    ensures
        match result {
            Ok(row) => exists|place: int|
                #[trigger] last_largest(lengths@, place) && rows@[place] == row,
            Err(message) => rows@.len() == 0 && message@ == "failed to select replay row"@,
        },
{
    if rows.len() == 0 {
        return Err("failed to select replay row");
    }
    let mut best: usize = 0;
    let mut next: usize = 1;
    while next < lengths.len()
        invariant
            rows@.len() == lengths@.len(),
            0 < next <= lengths@.len(),
            best < next,
            forall|i: int| 0 <= i < next ==> #[trigger] lengths@[i] <= lengths@[best as int],
            forall|i: int| best < i < next ==> #[trigger] lengths@[i] < lengths@[best as int],
        decreases lengths@.len() - next,
    {
        if lengths[next] >= lengths[best] {
            best = next;
        }
        next = next + 1;
    }
    assert(last_largest(lengths@, best as int));
    Ok(rows[best])
}

/// The batches that are evaluated.
pub fn eval_batches(rows: usize, batch_size: usize, max_batches: usize) -> (count: usize)
    requires
        batch_size > 0,
    ensures
        count == min_of(max_batches as int, batches_for(rows as int, batch_size as int)),
{
    let all: usize = batch_count(rows, batch_size);
    if max_batches < all {
        max_batches
    } else {
        all
    }
}

/// The settings of the command line.
#[derive(Debug)]
pub struct CheckedArgs {
    pub history_steps: usize,
    pub horizon_steps: usize,
    pub batch_size: usize,
    pub max_batches: usize,
    pub report_horizons: Vec<usize>,
}

impl CheckedArgs {
    /// Every reported horizon lies within the evaluated one.
    pub open spec fn horizons_fit(self) -> bool {
        forall|i: int|
            0 <= i < self.report_horizons@.len() ==> 0 < #[trigger] self.report_horizons@[i]
                <= self.horizon_steps
    }

    /// The message of the first check that fails.
    pub open spec fn refusal(self) -> Option<Seq<char>> {
        if self.history_steps < 2 {
            Some("--history-steps must be at least two"@)
        } else if self.horizon_steps == 0 {
            Some("--horizon-steps must be greater than zero"@)
        } else if self.batch_size == 0 {
            Some("--batch-size must be greater than zero"@)
        } else if self.max_batches == 0 {
            Some("--max-batches must be greater than zero"@)
        } else if self.report_horizons@.len() == 0 {
            Some("--report-horizons must not be empty"@)
        } else if !self.horizons_fit() {
            Some("all --report-horizons entries must be in 1..=horizon_steps"@)
        } else {
            None
        }
    }
}

/// Checks the settings of the command line, in order.
pub fn validate_args(args: &CheckedArgs) -> (result: Result<(), &'static str>)
    ensures
        match result {
            Ok(()) => args.refusal() is None,
            Err(message) => args.refusal() == Some(message@),
        },
{
    if args.history_steps < 2 {
        return Err("--history-steps must be at least two");
    }
    if args.horizon_steps == 0 {
        return Err("--horizon-steps must be greater than zero");
    }
    if args.batch_size == 0 {
        return Err("--batch-size must be greater than zero");
    }
    if args.max_batches == 0 {
        return Err("--max-batches must be greater than zero");
    }
    if args.report_horizons.len() == 0 {
        return Err("--report-horizons must not be empty");
    }
    let mut next: usize = 0;
    while next < args.report_horizons.len()
        invariant
            next <= args.report_horizons@.len(),
            args.history_steps >= 2,
            args.horizon_steps > 0,
            args.batch_size > 0,
            args.max_batches > 0,
            args.report_horizons@.len() > 0,
            forall|i: int|
                0 <= i < next ==> 0 < #[trigger] args.report_horizons@[i] <= args.horizon_steps,
        decreases args.report_horizons@.len() - next,
    {
        let horizon: usize = args.report_horizons[next];
        if horizon == 0 || horizon > args.horizon_steps {
            assert(!args.horizons_fit());
            return Err("all --report-horizons entries must be in 1..=horizon_steps");
        }
        next = next + 1;
    }
    Ok(())
}

/// The data set that is evaluated by default.
pub fn default_dataset_dir(home: Option<&str>) -> (path: String)
    ensures
        path@ == stored(home, "le-wm-nv-data"@, "drone-racing-autonomous-100hz"@),
{
    stored_dir(home, "le-wm-nv-data", "drone-racing-autonomous-100hz")
}

/// The run that is evaluated by default.
pub fn default_run_dir(home: Option<&str>) -> (path: String)
    ensures
        path@ == stored(home, "le-wm-nv-runs"@, "drone-state-lewm-all-data-20260612-235255"@),
{
    stored_dir(home, "le-wm-nv-runs", "drone-state-lewm-all-data-20260612-235255")
}

/// The name of a checkpoint is its prefix, the digits of its step and its ending, and no other name
/// is one.
pub proof fn law_checkpoint_names_are_prefix_step_and_ending(name: Seq<char>, step: nat)
    requires
        checkpoint_step(name) == Some(step),
    ensures
        step <= usize::MAX,
        exists|digits: Seq<char>|
            name == "checkpoint-step-"@ + digits + ".safetensors"@ && #[trigger] number(digits)
                == Some(step),
{
    let head = "checkpoint-step-"@;
    let tail = ".safetensors"@;
    let rest = name.skip(head.len() as int);
    let digits = rest.take(name.len() - head.len() - tail.len());
    crate::text::law_texts_begin_and_end(head, tail, name);
    crate::text::law_texts_begin_and_end(head, tail, rest);
    assert(rest == digits + tail);
    assert(name =~= head + digits + tail);
    assert(number(digits) == Some(step));
}

/// Without a selection every step is wanted, and with one only those that are selected.
pub proof fn law_selected_steps_are_wanted(selected: Seq<usize>, step: usize)
    ensures
        selected.len() == 0 ==> wanted(selected, step),
        selected.len() > 0 ==> (wanted(selected, step) <==> exists|i: int|
            0 <= i < selected.len() && selected[i] == step),
{
}

/// A file that carries a wanted step is listed with it and by its place, and nothing else is listed.
#[verifier::spinoff_prover]
pub proof fn law_wanted_checkpoints_are_listed(
    names: Seq<Seq<char>>,
    selected: Seq<usize>,
    count: int,
    place: int,
    info: CheckpointInfo,
)
    requires
        0 <= count <= names.len() <= usize::MAX,
    ensures
        0 <= place < count && (checkpoint_step(names[place]) matches Some(step) && wanted(
            selected,
            step as usize,
        )) ==> listed_checkpoints(names, selected, count).contains(
            (CheckpointInfo {
                step: checkpoint_step(names[place])->0 as usize,
                file: CheckpointFile::Listed(place as usize),
            }),
        ),
        listed_checkpoints(names, selected, count).contains(info) ==> (info.file matches
            CheckpointFile::Listed(at) && at < count && checkpoint_step(names[at as int]) is Some
            && info.step == checkpoint_step(names[at as int])->0 as usize && wanted(
            selected,
            info.step,
        )),
    decreases count,
{
    if count > 0 {
        law_wanted_checkpoints_are_listed(names, selected, count - 1, place, info);
        let before = listed_checkpoints(names, selected, count - 1);
        let all = listed_checkpoints(names, selected, count);
        if 0 <= place < count && (checkpoint_step(names[place]) matches Some(step) && wanted(
            selected,
            step as usize,
        )) {
            let own = CheckpointInfo {
                step: checkpoint_step(names[place])->0 as usize,
                file: CheckpointFile::Listed(place as usize),
            };
            if place == count - 1 {
                assert(all[all.len() - 1] == own);
            } else {
                let at = choose|i: int| 0 <= i < before.len() && before[i] == own;
                assert(all[at] == own);
            }
        }
        if all.contains(info) && !before.contains(info) {
            let at = choose|i: int| 0 <= i < all.len() && all[i] == info;
            assert(at < before.len() ==> before[at] == info);
        }
    }
}

/// The largest step is the step of one of the checkpoints, and none has a larger one; without any it
/// is zero.
pub proof fn law_no_step_exceeds_the_largest(checkpoints: Seq<CheckpointInfo>)
    ensures
        forall|i: int|
            0 <= i < checkpoints.len() ==> (#[trigger] checkpoints[i]).step <= largest_step(
                checkpoints,
            ),
        largest_step(checkpoints) == 0 || exists|i: int|
            0 <= i < checkpoints.len() && (#[trigger] checkpoints[i]).step == largest_step(
                checkpoints,
            ),
    decreases checkpoints.len(),
{
    if checkpoints.len() > 0 {
        let before = checkpoints.drop_last();
        law_no_step_exceeds_the_largest(before);
        assert forall|i: int| 0 <= i < checkpoints.len() implies (
        #[trigger] checkpoints[i]).step <= largest_step(checkpoints) by {
            if i < before.len() {
                assert(before[i].step <= largest_step(before));
            }
        }
        if largest_step(checkpoints) == largest_step(before) && largest_step(before) != 0 {
            let place = choose|i: int|
                0 <= i < before.len() && (#[trigger] before[i]).step == largest_step(before);
            assert(checkpoints[place].step == largest_step(checkpoints));
        } else {
            assert(checkpoints[checkpoints.len() - 1].step == checkpoints.last().step);
        }
    }
}

/// The final weights come in with their own step where it is known, else with the largest step of the
/// files, and only where that step is wanted.
pub proof fn law_final_weights_are_added(
    names: Seq<Seq<char>>,
    selected: Seq<usize>,
    step: usize,
)
    ensures
        ({
            let listed = listed_checkpoints(names, selected, names.len() as int);
            let largest = largest_step(listed);
            &&& all_checkpoints(names, selected, None) == listed
            &&& wanted(selected, step) ==> all_checkpoints(names, selected, Some(Some(step)))
                == listed + seq![CheckpointInfo { step, file: CheckpointFile::Final }]
            &&& !wanted(selected, step) ==> all_checkpoints(names, selected, Some(Some(step)))
                == listed
            &&& wanted(selected, largest) ==> all_checkpoints(names, selected, Some(None)) == listed
                + seq![CheckpointInfo { step: largest, file: CheckpointFile::Final }]
            &&& !wanted(selected, largest) ==> all_checkpoints(names, selected, Some(None))
                == listed
        }),
{
    let listed = listed_checkpoints(names, selected, names.len() as int);
    let largest = largest_step(listed);
    let own = CheckpointInfo { step, file: CheckpointFile::Final };
    let known = CheckpointInfo { step: largest, file: CheckpointFile::Final };
    assert(listed.push(own) =~= listed + seq![own]);
    assert(listed.push(known) =~= listed + seq![known]);
}

/// Sorting keeps every checkpoint, and those of equal steps in their order.
#[verifier::spinoff_prover]
pub proof fn law_sorting_keeps_the_checkpoints(
    sorted: Seq<CheckpointInfo>,
    checkpoints: Seq<CheckpointInfo>,
    place: int,
    first: int,
    second: int,
)
    requires
        sorted_by_step(sorted, checkpoints),
        checkpoints.len() <= usize::MAX,
    ensures
        0 <= place < checkpoints.len() ==> sorted.contains(checkpoints[place]),
        0 <= place < sorted.len() ==> checkpoints.contains(sorted[place]),
        0 <= first < second < sorted.len() && sorted[first].step == sorted[second].step ==> exists|
            earlier: int,
            later: int,
        |
            0 <= earlier < later < checkpoints.len() && #[trigger] checkpoints[earlier]
                == sorted[first] && #[trigger] checkpoints[later] == sorted[second],
{
    let keys = step_keys(checkpoints);
    let order = choose|order: Seq<usize>|
        {
            &&& #[trigger] stable_order(step_keys(checkpoints), order)
            &&& order.to_multiset() == items(0, checkpoints.len() as int).to_multiset()
            &&& sorted.len() == order.len()
            &&& forall|i: int|
                0 <= i < sorted.len() ==> #[trigger] sorted[i] == checkpoints[order[i] as int]
        };
    if 0 <= place < checkpoints.len() {
        crate::ranking::law_order_lists_every_item(keys, order, place as usize);
        let rank = choose|i: int| 0 <= i < order.len() && order[i] == place as usize;
        assert(sorted[rank] == checkpoints[place]);
    }
    if 0 <= place < sorted.len() {
        assert(order[place] < keys.len());
        assert(sorted[place] == checkpoints[order[place] as int]);
    }
    if 0 <= first < second < sorted.len() && sorted[first].step == sorted[second].step {
        crate::ranking::law_keys_ascend_along_a_stable_order(keys, order, first, second);
        assert(sorted[first] == checkpoints[order[first] as int]);
        assert(sorted[second] == checkpoints[order[second] as int]);
        assert(checkpoints[order[first] as int] == sorted[first] && checkpoints[order[second] as int]
            == sorted[second]);
    }
}

/// The final step of a run is the whole number that its state gives as the global step. A line of the
/// metrics times a step where it gives the step as a whole number and the time as a number.
pub proof fn law_steps_are_read_from_their_members(
    members: Map<Seq<char>, (bool, Option<u64>)>,
    step: u64,
)
    ensures
        final_step(members) == Some(step) <==> members.contains_key("global_step"@)
            && members["global_step"@].1 == Some(step),
        timed_step(members) == Some(step) <==> members.contains_key("step"@)
            && members["step"@].1 == Some(step) && members.contains_key("elapsed_sec"@)
            && members["elapsed_sec"@].0,
{
}

/// The time of a step is taken from the last line that times it.
pub proof fn law_last_times_count(lines: Seq<Seq<char>>, step: u64, count: int)
    requires
        0 <= count <= lines.len(),
    ensures
        match last_timed_line(lines, step, count) {
            Some(line) => {
                &&& 0 <= line < count
                &&& text_members(lines[line]) matches Some(members) && timed_step(members) == Some(
                    step,
                )
                &&& forall|later: int|
                    line < later < count ==> !(text_members(#[trigger] lines[later]) matches Some(
                        members,
                    ) && timed_step(members) == Some(step))
            },
            None => forall|later: int|
                0 <= later < count ==> !(text_members(#[trigger] lines[later]) matches Some(members)
                    && timed_step(members) == Some(step)),
        },
    decreases count,
{
    if count > 0 {
        law_last_times_count(lines, step, count - 1);
    }
}

/// Each step that some line times is listed once, with the last line that times it, and no other.
#[verifier::spinoff_prover]
pub proof fn law_every_timed_step_is_listed(
    times: Seq<(u64, usize)>,
    lines: Seq<Seq<char>>,
    line: int,
    step: u64,
)
    requires
        times_listed(times, lines, lines.len() as int),
        0 <= line < lines.len() <= usize::MAX,
    ensures
        (text_members(lines[line]) matches Some(members) && timed_step(members) == Some(step))
            ==> exists|i: int|
            0 <= i < times.len() && (#[trigger] times[i]).0 == step && line <= times[i].1
                < lines.len(),
        forall|i: int, j: int|
            0 <= i < j < times.len() ==> (#[trigger] times[i]).0 != (#[trigger] times[j]).0,
{
    law_last_times_count(lines, step, lines.len() as int);
    if text_members(lines[line]) matches Some(members) && timed_step(members) == Some(step) {
        assert(last_timed_line(lines, step, lines.len() as int) is Some);
        let i = choose|i: int| 0 <= i < times.len() && (#[trigger] times[i]).0 == step;
        assert(last_timed_line(lines, times[i].0, lines.len() as int) == Some(times[i].1 as int));
    }
}

/// A replay can start at a row where its history and its horizon end in the data and in the row's own
/// episode.
pub proof fn law_replays_stay_in_their_episode(
    episodes: Seq<i64>,
    row: int,
    history_steps: int,
    horizon_steps: int,
)
    requires
        0 <= row,
        history_steps > 0,
        horizon_steps >= 0,
    ensures
        replayable(episodes, row, history_steps, horizon_steps) <==> row + history_steps
            + horizon_steps <= episodes.len() && episodes[row + history_steps + horizon_steps - 1]
            == episodes[row],
{
}

/// The rows at which a replay can start are those of the given ones that allow it, as they stand.
pub proof fn law_replay_rows_are_selected(
    episodes: Seq<i64>,
    rows: Seq<usize>,
    history_steps: int,
    horizon_steps: int,
    count: int,
)
    requires
        0 <= count <= rows.len(),
    ensures
        replay_rows_of(episodes, rows, history_steps, horizon_steps, count) == rows.take(
            count,
        ).filter(
            |row: usize|
                row < episodes.len() && replayable(
                    episodes,
                    row as int,
                    history_steps,
                    horizon_steps,
                ),
        ),
    decreases count,
{
    reveal(Seq::filter);
    if count > 0 {
        law_replay_rows_are_selected(episodes, rows, history_steps, horizon_steps, count - 1);
        assert(rows.take(count).drop_last() =~= rows.take(count - 1));
    } else {
        assert(rows.take(0) =~= Seq::<usize>::empty());
    }
}

/// No path is longer than the chosen one, every later one is shorter, and so only one can be chosen.
pub proof fn law_the_last_of_the_longest_is_chosen(
    keys: Seq<i64>,
    place: int,
    other: int,
)
    requires
        last_largest(keys, place),
        0 <= other < keys.len(),
    ensures
        keys[other] <= keys[place],
        other > place ==> keys[other] < keys[place],
        last_largest(keys, other) ==> other == place,
{
    if last_largest(keys, other) {
        assert(keys[other] <= keys[place]);
        assert(keys[place] <= keys[other]);
    }
}

/// Settings are accepted exactly where each of them is in its range and every reported horizon lies
/// within the horizon.
pub proof fn law_accepted_settings_are_in_range(args: CheckedArgs)
    ensures
        args.refusal() is None <==> {
            &&& args.history_steps >= 2
            &&& args.horizon_steps > 0
            &&& args.batch_size > 0
            &&& args.max_batches > 0
            &&& args.report_horizons@.len() > 0
            &&& forall|i: int|
                0 <= i < args.report_horizons@.len() ==> 1 <= #[trigger] args.report_horizons@[i]
                    <= args.horizon_steps
        },
{
}

} // verus!
