//! Evaluation of world-model rollouts under recorded and altered actions.

use crate::eval_drone::append;
use crate::order::Score;
use crate::paths::{join, joined, stored, stored_dir};
use crate::text::{decimal, format_decimal, is_size, list_entries, number, number_up_to, parse_size_list,
    same, size_of};
use vstd::prelude::*;

verus! {

/// Combined with the run's seed for the second shuffle of the rows.
pub const SHUFFLED_ROWS_MASK: u64 = 0xA5A5_5A5A_DEAD_BEEF;

/// The numbers stand in ascending order, and none twice.
pub open spec fn ascending(values: Seq<usize>) -> bool {
    forall|i: int, j: int| 0 <= i < j < values.len() ==> #[trigger] values[i] < #[trigger] values[j]
}

fn insert_distinct(values: &mut Vec<usize>, value: usize)
    requires
        ascending(old(values)@),
    ensures
        ascending(final(values)@),
        forall|v: usize| #[trigger]
            final(values)@.contains(v) <==> (old(values)@.contains(v) || v == value),
{
    let mut place: usize = 0;
    while place < values.len() && values[place] < value
        invariant
            values@ == old(values)@,
            place <= values@.len(),
            ascending(values@),
            forall|i: int| 0 <= i < place ==> #[trigger] values@[i] < value,
        decreases values@.len() - place,
    {
        place = place + 1;
    }
    let ghost before = values@;
    if place < values.len() && values[place] == value {
        assert(before[place as int] == value);
        return;
    }
    values.insert(place, value);
    proof {
        assert forall|v: usize| #[trigger]
            values@.contains(v) <==> (before.contains(v) || v == value) by {
            if before.contains(v) {
                let i = choose|i: int| 0 <= i < before.len() && before[i] == v;
                if i < place {
                    assert(values@[i] == v);
                } else {
                    assert(values@[i + 1] == v);
                }
            }
            assert(values@[place as int] == value);
            if values@.contains(v) && v != value {
                let i = choose|i: int| 0 <= i < values@.len() && values@[i] == v;
                if i < place {
                    assert(before[i] == v);
                } else {
                    assert(before[i - 1] == v);
                }
            }
        }
        assert forall|i: int, j: int| 0 <= i < j < values@.len() implies #[trigger] values@[i]
            < #[trigger] values@[j] by {
            if j < place {
            } else if j == place {
                assert(before[i] < value);
            } else if i < place {
                assert(before[i] < before[j - 1]);
            } else if i == place {
                assert(before[place as int] >= value && before[place as int] != value);
                if j - 1 > place {
                    assert(before[place as int] < before[j - 1]);
                }
            } else {
                assert(before[i - 1] < before[j - 1]);
            }
        }
    }
}

/// Why a list of horizons is refused.
#[derive(PartialEq, Eq, Debug)]
pub enum HorizonError {
    /// The entry is no number.
    Invalid(String),
    Empty,
    /// One of the horizons is zero.
    Zero,
}

/// The first entry of the list that is no number.
pub open spec fn first_bad_entry(entries: Seq<Seq<char>>, place: int) -> bool {
    &&& 0 <= place < entries.len()
    &&& !is_size(entries[place])
    &&& forall|j: int| 0 <= j < place ==> is_size(#[trigger] entries[j])
}

/// All entries of the list are numbers.
pub open spec fn all_sizes(entries: Seq<Seq<char>>) -> bool {
    forall|i: int| 0 <= i < entries.len() ==> is_size(#[trigger] entries[i])
}

/// The value is among the numbers of the list.
pub open spec fn listed(entries: Seq<Seq<char>>, value: usize) -> bool {
    exists|i: int| 0 <= i < entries.len() && size_of(#[trigger] entries[i]) == value
}

/// What reading a list of horizons comes to.
pub open spec fn horizons_read(text: Seq<char>, result: Result<Vec<usize>, HorizonError>) -> bool {
    let entries = list_entries(text);
    match result {
        Ok(horizons) => {
            &&& all_sizes(entries)
            &&& horizons@.len() > 0
            &&& ascending(horizons@)
            &&& forall|v: usize| horizons@.contains(v) <==> #[trigger] listed(entries, v)
            &&& forall|i: int| 0 <= i < horizons@.len() ==> #[trigger] horizons@[i] > 0
        },
        Err(HorizonError::Invalid(entry)) => exists|place: int|
            #[trigger] first_bad_entry(entries, place) && entries[place] == entry@,
        Err(HorizonError::Empty) => entries.len() == 0,
        Err(HorizonError::Zero) => all_sizes(entries) && listed(entries, 0),
    }
}

/// Reads a list of horizons: comma-separated positive numbers, which come back in ascending order
/// without repetitions.
pub fn parse_horizons(text: &str) -> (result: Result<Vec<usize>, HorizonError>)
    ensures
        horizons_read(text@, result),
{
    let ghost entries = list_entries(text@);
    let values = match parse_size_list(text) {
        Ok(values) => values,
        Err(entry) => {
            proof {
                let place = choose|i: int|
                    0 <= i < entries.len() && #[trigger] entries[i] == entry@ && !is_size(entry@)
                        && forall|j: int| 0 <= j < i ==> is_size(#[trigger] entries[j]);
                assert(first_bad_entry(entries, place));
            }
            return Err(HorizonError::Invalid(entry));
        },
    };
    let mut horizons: Vec<usize> = Vec::new();
    let mut next: usize = 0;
    while next < values.len()
        invariant
            next <= values@.len() == entries.len(),
            forall|i: int|
                0 <= i < values@.len() ==> is_size(#[trigger] entries[i]) && values@[i] == size_of(
                    entries[i],
                ),
            ascending(horizons@),
            forall|v: usize|
                horizons@.contains(v) <==> #[trigger] listed(entries.take(next as int), v),
        decreases values@.len() - next,
    {
        let ghost before = entries.take(next as int);
        let ghost after = entries.take(next + 1);
        let ghost value = values@[next as int];
        insert_distinct(&mut horizons, values[next]);
        proof {
            assert(size_of(entries[next as int]) == value);
            assert forall|v: usize| #[trigger] listed(after, v) <==> (listed(before, v) || v
                == value) by {
                if listed(before, v) {
                    let i = choose|i: int| 0 <= i < before.len() && size_of(#[trigger] before[i])
                        == v;
                    assert(size_of(after[i]) == v);
                }
                assert(after[next as int] == entries[next as int]);
                if v == value {
                    assert(size_of(after[next as int]) == v);
                }
                if listed(after, v) && v != value {
                    let i = choose|i: int| 0 <= i < after.len() && size_of(#[trigger] after[i]) == v;
                    assert(size_of(before[i]) == v);
                }
            }
        }
        next = next + 1;
    }
    assert(entries.take(next as int) =~= entries);
    if horizons.len() == 0 {
        proof {
            if entries.len() > 0 {
                assert(listed(entries, size_of(entries[0])));
            }
        }
        return Err(HorizonError::Empty);
    }
    if horizons[0] == 0 {
        assert(horizons@.contains(0));
        return Err(HorizonError::Zero);
    }
    assert forall|i: int| 0 <= i < horizons@.len() implies #[trigger] horizons@[i] > 0 by {
        if i > 0 {
            assert(horizons@[0] < horizons@[i]);
        }
    }
    proof {
        assert(horizons@.contains(horizons@[0]));
        assert(listed(entries, horizons@[0]));
    }
    Ok(horizons)
}

/// The largest of the horizons.
pub fn max_horizon(horizons: &Vec<usize>) -> (largest: usize)
    requires
        horizons@.len() > 0,
        ascending(horizons@),
    ensures
        horizons@.contains(largest),
        forall|i: int| 0 <= i < horizons@.len() ==> #[trigger] horizons@[i] <= largest,
{
    horizons[horizons.len() - 1]
}

/// Which rows of a data set are evaluated.
#[derive(Clone, Copy, PartialEq, Eq, Structural, Debug)]
pub enum RowSource {
    All,
    Train,
    Eval,
}

/// The rows that a name stands for.
pub open spec fn source_named(name: Seq<char>) -> Option<RowSource> {
    if name == "all"@ {
        Some(RowSource::All)
    } else if name == "train"@ {
        Some(RowSource::Train)
    } else if name == "eval"@ {
        Some(RowSource::Eval)
    } else {
        None
    }
}

/// Reads the name of a row source.
pub fn rows_for_source(name: &str) -> (source: Option<RowSource>)
    ensures
        source == source_named(name@),
{
    if same(name, "all") {
        Some(RowSource::All)
    } else if same(name, "train") {
        Some(RowSource::Train)
    } else if same(name, "eval") {
        Some(RowSource::Eval)
    } else {
        None
    }
}

/// The first `limit` rows, or all of them where the limit is zero.
pub open spec fn limited_rows(rows: Seq<usize>, limit: int) -> Seq<usize> {
    if limit == 0 || limit >= rows.len() {
        rows
    } else {
        rows.take(limit)
    }
}

/// Keeps the first `limit` of the shuffled rows; zero keeps all. Evaluating nothing is refused.
pub fn select_rows(rows: Vec<usize>, limit: usize) -> (result: Option<Vec<usize>>)
    ensures
        match result {
            Some(kept) => kept@ == limited_rows(rows@, limit as int) && kept@.len() > 0,
            None => rows@.len() == 0,
        },
{
    let mut kept = rows;
    if limit > 0 && limit < kept.len() {
        kept.truncate(limit);
        assert(kept@ =~= rows@.take(limit as int));
    }
    if kept.len() == 0 {
        None
    } else {
        Some(kept)
    }
}

/// The seed of the second shuffle of the rows.
pub fn shuffled_rows_seed(seed: u64) -> (result: u64)
    ensures
        result == seed ^ 0xA5A5_5A5A_DEAD_BEEF,
        result == seed ^ SHUFFLED_ROWS_MASK,
{
    seed ^ SHUFFLED_ROWS_MASK
}

/// The seed of the noise of a chunk.
pub open spec fn noise_seed_of(seed: u64, chunk: u64) -> u64 {
    seed ^ chunk.wrapping_mul(crate::rng::GOLDEN_GAMMA)
}

/// The seed of the action noise of a chunk.
pub fn noise_seed(seed: u64, chunk: usize) -> (result: u64)
    ensures
        result == noise_seed_of(seed, chunk as u64),
        result == seed ^ (chunk as u64).wrapping_mul(crate::rng::GOLDEN_GAMMA),
{
    seed ^ (chunk as u64).wrapping_mul(crate::rng::GOLDEN_GAMMA)
}

/// The frames of a window: the history and the longest horizon behind it.
pub fn sequence_steps(history_size: usize, max_horizon: usize) -> (result: Result<
    usize,
    &'static str,
>)
    ensures
        match result {
            Ok(steps) => steps == history_size + max_horizon,
            Err(message) => history_size + max_horizon > usize::MAX && message@
                == "history_size + max_horizon overflowed"@,
        },
{
    match history_size.checked_add(max_horizon) {
        Some(steps) => Ok(steps),
        None => Err("history_size + max_horizon overflowed"),
    }
}

/// The place of the frame that a rollout of `horizon` steps behind a history predicts last.
pub open spec fn frame_of(history_size: int, horizon: int) -> int {
    history_size + horizon - 1
}

/// The first step of a rollout is compared with the first frame behind the history, and each further
/// step with the frame behind.
pub proof fn law_steps_are_compared_with_their_frames(history_size: int, horizon: int)
    ensures
        frame_of(history_size, 1) == history_size,
        frame_of(history_size, horizon + 1) == frame_of(history_size, horizon) + 1,
        frame_of(history_size + 1, horizon) == frame_of(history_size, horizon) + 1,
{
}

/// The place of the frame that lies `horizon` steps behind the history.
pub fn horizon_frame(history_size: usize, horizon: usize) -> (place: usize)
    requires
        horizon > 0,
        history_size + horizon <= usize::MAX,
    ensures
        place == frame_of(history_size as int, horizon as int),
        place == history_size + horizon - 1,
{
    history_size + (horizon - 1)
}

/// A frame that is compared lies in the window, behind the history.
pub proof fn law_compared_frames_lie_in_the_window(
    history_size: int,
    horizons: Seq<usize>,
    longest: usize,
    place: int,
)
    requires
        history_size >= 0,
        0 <= place < horizons.len(),
        horizons[place] > 0,
        horizons[place] <= longest,
    ensures
        history_size <= history_size + horizons[place] - 1 < history_size + longest,
{
}

/// The action streams that are compared.
pub open spec fn variant_name_list() -> Seq<Seq<char>> {
    seq![
        "expert"@,
        "mean_action"@,
        "shuffled_actions"@,
        "expert_plus_noise"@,
        "drop_roll"@,
        "drop_pitch"@,
        "drop_throttle"@,
        "drop_yaw"@,
    ]
}

/// Names the action streams that are compared: the recorded actions, then altered ones.
pub fn variant_names() -> (names: Vec<String>)
    ensures
        crate::text::views(names@) == variant_name_list(),
{
    let mut names: Vec<String> = Vec::new();
    names.push("expert".to_owned());
    names.push("mean_action".to_owned());
    names.push("shuffled_actions".to_owned());
    names.push("expert_plus_noise".to_owned());
    names.push("drop_roll".to_owned());
    names.push("drop_pitch".to_owned());
    names.push("drop_throttle".to_owned());
    names.push("drop_yaw".to_owned());
    assert(crate::text::views(names@) =~= variant_name_list());
    names
}

/// Finds the accumulator of a horizon.
pub fn horizon_slot(horizons: &Vec<usize>, horizon: usize) -> (slot: Option<usize>)
    ensures
        match slot {
            Some(place) => {
                &&& place < horizons@.len()
                &&& horizons@[place as int] == horizon
                &&& forall|i: int| 0 <= i < place ==> #[trigger] horizons@[i] != horizon
            },
            None => !horizons@.contains(horizon),
        },
{
    let mut place: usize = 0;
    while place < horizons.len()
        invariant
            place <= horizons@.len(),
            forall|i: int| 0 <= i < place ==> #[trigger] horizons@[i] != horizon,
        decreases horizons@.len() - place,
    {
        if horizons[place] == horizon {
            return Some(place);
        }
        place = place + 1;
    }
    None
}

/// Why nested lists of action values are no tensor.
#[derive(Clone, Copy, PartialEq, Eq, Structural, Debug)]
pub enum RaggedError {
    /// A sample has `found` steps, the first one `expected`.
    Steps { found: usize, expected: usize },
    /// A step has `found` channels.
    Channels { found: usize },
}

/// The steps of the first sample.
pub open spec fn first_steps<T>(samples: Seq<Vec<Vec<T>>>) -> int {
    if samples.len() == 0 {
        0
    } else {
        samples[0]@.len() as int
    }
}

/// A sample has as many steps as the first one, and each of its steps `dim` channels.
pub open spec fn sample_fits<T>(samples: Seq<Vec<Vec<T>>>, sample: int, dim: usize) -> bool {
    &&& samples[sample]@.len() == first_steps(samples)
    &&& forall|step: int|
        0 <= step < samples[sample]@.len() ==> (#[trigger] samples[sample]@[step])@.len() == dim
}

/// What is wrong with a sample: its number of steps, or the first step of another width.
pub open spec fn sample_fault<T>(
    samples: Seq<Vec<Vec<T>>>,
    sample: int,
    dim: usize,
    error: RaggedError,
) -> bool {
    match error {
        RaggedError::Steps { found, expected } => {
            &&& found == samples[sample]@.len()
            &&& expected == first_steps(samples)
            &&& found != expected
        },
        RaggedError::Channels { found } => {
            &&& samples[sample]@.len() == first_steps(samples)
            &&& found != dim
            &&& exists|step: int|
                {
                    &&& 0 <= step < samples[sample]@.len()
                    &&& (#[trigger] samples[sample]@[step])@.len() == found
                    &&& forall|earlier: int|
                        0 <= earlier < step ==> (#[trigger] samples[sample]@[earlier])@.len() == dim
                }
        },
    }
}

/// The values of the first `end` steps of a sample, one step behind the other.
pub open spec fn step_values<T>(sample: Seq<Vec<T>>, end: int) -> Seq<T>
    decreases end,
{
    if end <= 0 {
        Seq::empty()
    } else {
        step_values(sample, end - 1) + sample[end - 1]@
    }
}

/// The values of the first `end` samples, one sample behind the other.
pub open spec fn sample_values<T>(samples: Seq<Vec<Vec<T>>>, end: int) -> Seq<T>
    decreases end,
{
    if end <= 0 {
        Seq::empty()
    } else {
        sample_values(samples, end - 1) + step_values(
            samples[end - 1]@,
            samples[end - 1]@.len() as int,
        )
    }
}

/// Action values as one list, ordered by sample, step and channel.
#[derive(PartialEq, Eq, Debug)]
pub struct FlatActions<T> {
    pub steps: usize,
    pub values: Vec<T>,
}

/// Lays out nested lists of action values as one list. Samples of different lengths and steps of
/// other than `dim` channels are refused; the first fault is reported.
pub fn flat_action_values<T: Copy>(samples: &Vec<Vec<Vec<T>>>, dim: usize) -> (result: Result<
    FlatActions<T>,
    RaggedError,
>)
    ensures
        match result {
            Ok(flat) => {
                &&& flat.steps == first_steps(samples@)
                &&& flat.values@ == sample_values(samples@, samples@.len() as int)
                &&& forall|sample: int|
                    0 <= sample < samples@.len() ==> #[trigger] sample_fits(samples@, sample, dim)
            },
            Err(error) => exists|sample: int|
                {
                    &&& 0 <= sample < samples@.len()
                    &&& #[trigger] sample_fault(samples@, sample, dim, error)
                    &&& forall|earlier: int|
                        0 <= earlier < sample ==> #[trigger] sample_fits(samples@, earlier, dim)
                },
        },
{
    let steps: usize = if samples.len() == 0 {
        0
    } else {
        samples[0].len()
    };
    let mut values: Vec<T> = Vec::new();
    let mut sample: usize = 0;
    while sample < samples.len()
        invariant
            sample <= samples@.len(),
            steps == first_steps(samples@),
            values@ == sample_values(samples@, sample as int),
            forall|earlier: int|
                0 <= earlier < sample ==> #[trigger] sample_fits(samples@, earlier, dim),
        decreases samples@.len() - sample,
    {
        let found: usize = samples[sample].len();
        if found != steps {
            let error = RaggedError::Steps { found, expected: steps };
            assert(sample_fault(samples@, sample as int, dim, error));
            return Err(error);
        }
        let ghost before = values@;
        let mut step: usize = 0;
        while step < found
            invariant
                sample < samples@.len(),
                step <= found == samples@[sample as int]@.len() == first_steps(samples@),
                before == sample_values(samples@, sample as int),
                values@ == before + step_values(samples@[sample as int]@, step as int),
                forall|earlier: int|
                    0 <= earlier < sample ==> #[trigger] sample_fits(samples@, earlier, dim),
                forall|j: int|
                    0 <= j < step ==> (#[trigger] samples@[sample as int]@[j])@.len() == dim,
            decreases found - step,
        {
            let channels: &Vec<T> = &samples[sample][step];
            assert(channels@ == samples@[sample as int]@[step as int]@);
            if channels.len() != dim {
                let error = RaggedError::Channels { found: channels.len() };
                assert(sample_fault(samples@, sample as int, dim, error));
                return Err(error);
            }
            append(&mut values, channels.as_slice());
            step = step + 1;
            assert(values@ =~= before + step_values(samples@[sample as int]@, step as int));
        }
        assert(sample_fits(samples@, sample as int, dim));
        sample = sample + 1;
    }
    Ok(FlatActions { steps, values })
}

proof fn lemma_step_values_len<T>(sample: Seq<Vec<T>>, end: int, dim: int)
    requires
        0 <= end <= sample.len(),
        forall|j: int| 0 <= j < end ==> (#[trigger] sample[j])@.len() == dim,
    ensures
        step_values(sample, end).len() == end * dim,
    decreases end,
{
    if end > 0 {
        lemma_step_values_len(sample, end - 1, dim);
        assert(end * dim == (end - 1) * dim + dim) by (nonlinear_arith);
    } else {
        assert(end * dim == 0) by (nonlinear_arith)
            requires
                end == 0,
        ;
    }
}

proof fn lemma_step_values_at<T>(sample: Seq<Vec<T>>, end: int, dim: int, step: int, channel: int)
    requires
        0 <= step < end <= sample.len(),
        0 <= channel < dim,
        forall|j: int| 0 <= j < end ==> (#[trigger] sample[j])@.len() == dim,
    ensures
        0 <= step * dim + channel < end * dim,
        step_values(sample, end)[step * dim + channel] == sample[step]@[channel],
    decreases end,
{
    lemma_step_values_len(sample, end, dim);
    lemma_step_values_len(sample, end - 1, dim);
    assert(0 <= step * dim + channel < (step + 1) * dim <= end * dim) by (nonlinear_arith)
        requires
            0 <= step < end,
            0 <= channel < dim,
    ;
    if step < end - 1 {
        lemma_step_values_at(sample, end - 1, dim, step, channel);
    }
}

/// A value of the laid-out list stands at the place that its sample, its step and its channel
/// give.
pub proof fn law_action_values_keep_their_places<T>(
    samples: Seq<Vec<Vec<T>>>,
    dim: usize,
    sample: int,
    step: int,
    channel: int,
)
    requires
        forall|i: int| 0 <= i < samples.len() ==> #[trigger] sample_fits(samples, i, dim),
        0 <= sample < samples.len(),
        0 <= step < first_steps(samples),
        0 <= channel < dim,
    ensures
        sample_values(samples, samples.len() as int).len() == samples.len() * first_steps(samples)
            * dim,
        sample_values(samples, samples.len() as int)[(sample * first_steps(samples) + step) * dim
            + channel] == samples[sample]@[step]@[channel],
{
    lemma_sample_values_at(samples, samples.len() as int, dim, sample, step, channel);
}

proof fn lemma_sample_values_at<T>(
    samples: Seq<Vec<Vec<T>>>,
    end: int,
    dim: usize,
    sample: int,
    step: int,
    channel: int,
)
    requires
        forall|i: int| 0 <= i < samples.len() ==> #[trigger] sample_fits(samples, i, dim),
        0 <= sample < end <= samples.len(),
        0 <= step < first_steps(samples),
        0 <= channel < dim,
    ensures
        sample_values(samples, end).len() == end * first_steps(samples) * dim,
        0 <= (sample * first_steps(samples) + step) * dim + channel < end * first_steps(samples)
            * dim,
        sample_values(samples, end)[(sample * first_steps(samples) + step) * dim + channel]
            == samples[sample]@[step]@[channel],
    decreases end,
{
    let steps = first_steps(samples);
    let width = dim as int;
    lemma_sample_values_len(samples, end, dim);
    lemma_sample_values_len(samples, end - 1, dim);
    assert(sample_fits(samples, end - 1, dim));
    assert(sample_fits(samples, sample, dim));
    let place = (sample * steps + step) * width + channel;
    assert(0 <= place < (sample + 1) * steps * width <= end * steps * width) by (nonlinear_arith)
        requires
            0 <= sample < end,
            0 <= step < steps,
            0 <= channel < width,
            place == (sample * steps + step) * width + channel,
    ;
    if sample < end - 1 {
        lemma_sample_values_at(samples, end - 1, dim, sample, step, channel);
    } else {
        lemma_step_values_at(samples[sample]@, steps, width, step, channel);
        assert(place - (end - 1) * steps * width == step * width + channel) by (nonlinear_arith)
            requires
                place == (sample * steps + step) * width + channel,
                sample == end - 1,
        ;
    }
}

proof fn lemma_sample_values_len<T>(samples: Seq<Vec<Vec<T>>>, end: int, dim: usize)
    requires
        0 <= end <= samples.len(),
        forall|i: int| 0 <= i < samples.len() ==> #[trigger] sample_fits(samples, i, dim),
    ensures
        sample_values(samples, end).len() == end * first_steps(samples) * dim,
    decreases end,
{
    let steps = first_steps(samples);
    let width = dim as int;
    if end > 0 {
        lemma_sample_values_len(samples, end - 1, dim);
        assert(sample_fits(samples, end - 1, dim));
        lemma_step_values_len(samples[end - 1]@, steps, width);
        assert(end * steps * width == (end - 1) * steps * width + steps * width)
            by (nonlinear_arith);
    } else {
        assert(end * steps * width == 0) by (nonlinear_arith)
            requires
                end == 0,
        ;
    }
}

/// Sets one channel of every step to `zero` and leaves the others as they are.
pub fn drop_action_channel<T: Copy>(samples: &Vec<Vec<Vec<T>>>, channel: usize, zero: T) -> (dropped:
    Vec<Vec<Vec<T>>>)
    requires
        forall|i: int, j: int|
            0 <= i < samples@.len() && 0 <= j < samples@[i]@.len() ==> channel < (
            #[trigger] samples@[i]@[j])@.len(),
    ensures
        dropped@.len() == samples@.len(),
        forall|i: int|
            0 <= i < samples@.len() ==> (#[trigger] dropped@[i])@.len() == samples@[i]@.len(),
        forall|i: int, j: int|
            0 <= i < samples@.len() && 0 <= j < samples@[i]@.len() ==> (
            #[trigger] dropped@[i]@[j])@ == samples@[i]@[j]@.update(channel as int, zero),
{
    let mut dropped: Vec<Vec<Vec<T>>> = Vec::new();
    let mut sample: usize = 0;
    while sample < samples.len()
        invariant
            sample <= samples@.len(),
            dropped@.len() == sample,
            forall|i: int, j: int|
                0 <= i < samples@.len() && 0 <= j < samples@[i]@.len() ==> channel < (
                #[trigger] samples@[i]@[j])@.len(),
            forall|i: int|
                0 <= i < sample ==> (#[trigger] dropped@[i])@.len() == samples@[i]@.len(),
            forall|i: int, j: int|
                0 <= i < sample && 0 <= j < samples@[i]@.len() ==> (#[trigger] dropped@[i]@[j])@
                    == samples@[i]@[j]@.update(channel as int, zero),
        decreases samples@.len() - sample,
    {
        let mut steps: Vec<Vec<T>> = Vec::new();
        let mut step: usize = 0;
        while step < samples[sample].len()
            invariant
                sample < samples@.len(),
                step <= samples@[sample as int]@.len(),
                steps@.len() == step,
                forall|i: int, j: int|
                    0 <= i < samples@.len() && 0 <= j < samples@[i]@.len() ==> channel < (
                    #[trigger] samples@[i]@[j])@.len(),
                forall|j: int|
                    0 <= j < step ==> (#[trigger] steps@[j])@
                        == samples@[sample as int]@[j]@.update(channel as int, zero),
            decreases samples@[sample as int]@.len() - step,
        {
            let channels: &Vec<T> = &samples[sample][step];
            assert(channels@ == samples@[sample as int]@[step as int]@);
            let mut changed: Vec<T> = Vec::new();
            append(&mut changed, channels.as_slice());
            changed.set(channel, zero);
            steps.push(changed);
            step = step + 1;
        }
        dropped.push(steps);
        sample = sample + 1;
    }
    dropped
}

/// The key of the largest deviation of two normalizations, a hundred-thousandth.
pub const NORMALIZATION_KEY: i64 = 0x3ee4_f8b5_8000_0000;

/// How two sets of statistics compare.
#[derive(Clone, Copy, Debug)]
pub struct StatsComparison {
    pub run_means: usize,
    pub run_stds: usize,
    pub dataset_means: usize,
    pub dataset_stds: usize,
    /// The largest differences of the means and of the deviations.
    pub max_mean_delta: Score,
    pub max_std_delta: Score,
}

/// Why two sets of statistics differ.
#[derive(Clone, Copy, PartialEq, Eq, Structural, Debug)]
pub enum StatsError {
    Dimensions,
    Values,
}

/// The difference is small enough for two statistics to agree.
pub open spec fn close_enough(delta: Score) -> bool {
    delta.at_most(Score::Key(NORMALIZATION_KEY))
}

/// Checks that a run was normalized as the data set is.
pub fn ensure_stats_match(stats: &StatsComparison) -> (result: Result<(), StatsError>)
    ensures
        result is Ok ==> close_enough(stats.max_mean_delta) && close_enough(stats.max_std_delta),
        result == Err::<(), StatsError>(StatsError::Values) ==> !(close_enough(
            stats.max_mean_delta,
        ) && close_enough(stats.max_std_delta)),
        ({
            let same_dims = stats.run_means == stats.dataset_means && stats.run_stds
                == stats.dataset_stds;
            let close = stats.max_mean_delta.at_most(Score::Key(NORMALIZATION_KEY))
                && stats.max_std_delta.at_most(Score::Key(NORMALIZATION_KEY));
            match result {
                Ok(()) => same_dims && close,
                Err(StatsError::Dimensions) => !same_dims,
                Err(StatsError::Values) => same_dims && !close,
            }
        }),
{
    if stats.run_means != stats.dataset_means || stats.run_stds != stats.dataset_stds {
        return Err(StatsError::Dimensions);
    }
    if !(stats.max_mean_delta.is_at_most(Score::Key(NORMALIZATION_KEY))
        && stats.max_std_delta.is_at_most(Score::Key(NORMALIZATION_KEY))) {
        return Err(StatsError::Values);
    }
    Ok(())
}

/// What a model observes.
#[derive(Clone, Copy, PartialEq, Eq, Structural, Debug)]
pub enum ObservationInput {
    /// A vector of that many numbers.
    Vector(usize),
    Image,
}

/// Why a model does not fit the drone data.
#[derive(Clone, Copy, PartialEq, Eq, Structural, Debug)]
pub enum ModelError {
    ActionDim(usize),
    ObservationDim(usize),
    NotVector,
}

/// Checks the dimensions of a model against those of the drone data.
pub fn validate_model_config(
    action_dim: usize,
    observation: ObservationInput,
    drone_action_dim: usize,
    drone_observation_dim: usize,
) -> (result: Result<(), ModelError>)
    ensures
        match result {
            Ok(()) => action_dim == drone_action_dim && observation == ObservationInput::Vector(
                drone_observation_dim,
            ),
            Err(ModelError::ActionDim(found)) => found == action_dim && action_dim
                != drone_action_dim,
            Err(ModelError::ObservationDim(found)) => action_dim == drone_action_dim && observation
                == ObservationInput::Vector(found) && found != drone_observation_dim,
            Err(ModelError::NotVector) => action_dim == drone_action_dim && observation
                == ObservationInput::Image,
        },
{
    if action_dim != drone_action_dim {
        return Err(ModelError::ActionDim(action_dim));
    }
    match observation {
        ObservationInput::Vector(dim) => if dim == drone_observation_dim {
            Ok(())
        } else {
            Err(ModelError::ObservationDim(dim))
        },
        ObservationInput::Image => Err(ModelError::NotVector),
    }
}

/// Checks the settings of the command line, in order.
pub fn validate_args(chunk_size: usize, noise_std: Score) -> (result: Result<(), &'static str>)
    ensures
        match result {
            Ok(()) => chunk_size > 0 && noise_std.non_negative(),
            Err(message) => if chunk_size == 0 {
                message@ == "--chunk-size must be greater than zero"@
            } else {
                !noise_std.non_negative() && message@
                    == "--noise-std must be finite and non-negative"@
            },
        },
{
    if chunk_size == 0 {
        return Err("--chunk-size must be greater than zero");
    }
    if !noise_std.is_non_negative() {
        return Err("--noise-std must be finite and non-negative");
    }
    Ok(())
}

/// The data set that is evaluated by default.
pub fn default_dataset_dir(home: Option<&str>) -> (path: String)
    ensures
        path@ == stored(home, "le-wm-nv-data"@, "drone-racing-autonomous-100hz-pose12"@),
{
    stored_dir(home, "le-wm-nv-data", "drone-racing-autonomous-100hz-pose12")
}

/// The report that is written by default, stamped with the time in seconds.
pub fn default_json_path(stamp: u64) -> (path: String)
    ensures
        path@ == joined(
            joined("target"@, "drone-oracle-eval"@),
            decimal(stamp as nat) + ".json"@,
        ),
{
    let name = format_decimal(stamp).concat(".json");
    join(join("target", "drone-oracle-eval").as_str(), name.as_str())
}

/// The horizons that are read are the numbers of the list, each once and in ascending order, and none
/// is zero.
#[verifier::spinoff_prover]
pub proof fn law_horizons_are_those_of_the_list(text: Seq<char>, horizons: Vec<usize>, place: int)
    requires
        horizons_read(text, Ok(horizons)),
        0 <= place < list_entries(text).len(),
    ensures
        number(list_entries(text)[place]) is Some,
        number(list_entries(text)[place])->0 <= usize::MAX,
        horizons@.contains(number(list_entries(text)[place])->0 as usize),
        forall|i: int, j: int|
            0 <= i < j < horizons@.len() ==> #[trigger] horizons@[i] < #[trigger] horizons@[j],
        forall|i: int|
            0 <= i < horizons@.len() ==> 0 < #[trigger] horizons@[i] && exists|entry: int|
                0 <= entry < list_entries(text).len() && number(
                    #[trigger] list_entries(text)[entry],
                ) == Some(horizons@[i] as nat),
{
    let entries = list_entries(text);
    assert(is_size(entries[place]));
    assert(listed(entries, size_of(entries[place])));
    assert forall|i: int| 0 <= i < horizons@.len() implies 0 < #[trigger] horizons@[i] && exists|
        entry: int,
    |
        0 <= entry < entries.len() && number(#[trigger] entries[entry]) == Some(
            horizons@[i] as nat,
        ) by {
        assert(horizons@.contains(horizons@[i]));
        assert(listed(entries, horizons@[i]));
        let entry = choose|k: int|
            0 <= k < entries.len() && size_of(#[trigger] entries[k]) == horizons@[i];
        assert(is_size(entries[entry]));
        assert(number(entries[entry]) == Some(horizons@[i] as nat));
    }
}

/// A list of horizons is read exactly where it has entries, all of them are numbers and none is zero;
/// otherwise the error names what is wrong.
#[verifier::spinoff_prover]
pub proof fn law_sound_lists_of_horizons_are_read(
    text: Seq<char>,
    result: Result<Vec<usize>, HorizonError>,
)
    requires
        horizons_read(text, result),
    ensures
        result is Ok <==> {
            &&& list_entries(text).len() > 0
            &&& forall|i: int|
                0 <= i < list_entries(text).len() ==> number(#[trigger] list_entries(text)[i])
                    is Some && 0 < number(list_entries(text)[i])->0 <= usize::MAX
        },
        result matches Err(HorizonError::Invalid(entry)) ==> list_entries(text).contains(entry@)
            && number_up_to(entry@, usize::MAX as nat) is None,
        result matches Err(HorizonError::Empty) ==> list_entries(text).len() == 0,
        result matches Err(HorizonError::Zero) ==> exists|i: int|
            0 <= i < list_entries(text).len() && number(#[trigger] list_entries(text)[i]) == Some(
                0nat,
            ),
{
    let entries = list_entries(text);
    match result {
        Ok(horizons) => {
            assert(horizons@.contains(horizons@[0]));
            assert(listed(entries, horizons@[0]));
            assert forall|i: int| 0 <= i < entries.len() implies number(#[trigger] entries[i])
                is Some && 0 < number(entries[i])->0 <= usize::MAX by {
                assert(is_size(entries[i]));
                assert(listed(entries, size_of(entries[i])));
                assert(horizons@.contains(size_of(entries[i])));
            }
        },
        Err(HorizonError::Invalid(entry)) => {
            let place = choose|place: int| #[trigger]
                first_bad_entry(entries, place) && entries[place] == entry@;
            assert(!is_size(entries[place]));
        },
        Err(HorizonError::Empty) => {},
        Err(HorizonError::Zero) => {
            let place = choose|i: int| 0 <= i < entries.len() && size_of(#[trigger] entries[i]) == 0;
            assert(is_size(entries[place]));
            assert(number(entries[place]) == Some(0nat));
        },
    }
}

/// The three sources of rows have their own names, and no other name is one.
pub proof fn law_sources_have_their_names(name: Seq<char>)
    ensures
        source_named("all"@) == Some(RowSource::All),
        source_named("train"@) == Some(RowSource::Train),
        source_named("eval"@) == Some(RowSource::Eval),
        source_named(name) is Some ==> name == "all"@ || name == "train"@ || name == "eval"@,
{
    reveal_strlit("all");
    reveal_strlit("train");
    reveal_strlit("eval");
    assert("train"@.len() == 5);
    assert("all"@.len() == 3);
    assert("eval"@.len() == 4);
}

/// A limit keeps the first rows, as many as it says where there are more, and zero keeps them all.
pub proof fn law_limits_keep_the_first_rows(rows: Seq<usize>, limit: int, place: int)
    requires
        limit >= 0,
        0 <= place < limited_rows(rows, limit).len(),
    ensures
        limited_rows(rows, 0) == rows,
        limit > 0 ==> limited_rows(rows, limit).len() <= limit,
        limited_rows(rows, limit).len() == limit || limited_rows(rows, limit) == rows,
        limited_rows(rows, limit)[place] == rows[place],
{
}

/// Statistics that differ by at most a hundred-thousandth agree.
pub proof fn law_statistics_agree_up_to_rounding(delta: i64)
    ensures
        close_enough(Score::Key(delta)) <==> delta <= 0x3ee4_f8b5_8000_0000,
        !close_enough(Score::NotANumber),
{
}

/// Different chunks draw different noise, and so do different runs.
pub proof fn law_chunks_draw_their_own_noise(seed: u64, other: u64, first: u64, second: u64)
    requires
        first != second,
        seed != other,
    ensures
        noise_seed_of(seed, first) != noise_seed_of(seed, second),
        noise_seed_of(seed, first) != noise_seed_of(other, first),
        noise_seed_of(seed, 0) == seed,
{
    crate::rng::lemma_spread_differs(first, second);
    let one = first.wrapping_mul(crate::rng::GOLDEN_GAMMA);
    let two = second.wrapping_mul(crate::rng::GOLDEN_GAMMA);
    assert(seed ^ one != seed ^ two) by (bit_vector)
        requires
            one != two,
    ;
    assert(seed ^ one != other ^ one) by (bit_vector)
        requires
            seed != other,
    ;
    assert(0u64.wrapping_mul(crate::rng::GOLDEN_GAMMA) == 0);
    assert(seed ^ 0u64 == seed) by (bit_vector);
}

/// The variants are the recorded actions, three alterations of them, and the recorded actions without
/// each channel in turn.
pub proof fn law_variants_drop_each_channel()
    ensures
        variant_name_list().len() == 8,
        variant_name_list()[0] == "expert"@,
        variant_name_list()[1] == "mean_action"@,
        variant_name_list()[2] == "shuffled_actions"@,
        variant_name_list()[3] == "expert_plus_noise"@,
        variant_name_list()[4] == "drop_roll"@,
        variant_name_list()[5] == "drop_pitch"@,
        variant_name_list()[6] == "drop_throttle"@,
        variant_name_list()[7] == "drop_yaw"@,
{
}

/// A ragged sample is reported by what is wrong with it: another number of steps than the first has,
/// or a step of another width.
pub proof fn law_ragged_samples_name_their_fault<T>(
    samples: Seq<Vec<Vec<T>>>,
    sample: int,
    dim: usize,
    error: RaggedError,
)
    requires
        0 <= sample < samples.len(),
        sample_fault(samples, sample, dim, error),
    ensures
        !sample_fits(samples, sample, dim),
        error matches RaggedError::Steps { found, expected } ==> found == samples[sample]@.len()
            && expected == samples[0]@.len() && found != expected,
        error matches RaggedError::Channels { found } ==> found != dim && exists|step: int|
            0 <= step < samples[sample]@.len() && (#[trigger] samples[sample]@[step])@.len()
                == found,
{
}

/// The first entry that is no number is the one that is reported.
pub proof fn law_the_first_bad_entry_is_reported(entries: Seq<Seq<char>>, place: int, earlier: int)
    requires
        first_bad_entry(entries, place),
        0 <= earlier < place,
    ensures
        number_up_to(entries[place], usize::MAX as nat) is None,
        number_up_to(entries[earlier], usize::MAX as nat) is Some,
{
    assert(is_size(entries[earlier]));
}

} // verus!
