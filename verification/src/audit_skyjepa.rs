//! The audit of a SkyJEPA data set: its index columns, its coverage of each domain, and the
//! verdict.

use crate::bench_skyjepa::GROUND_KEY;
use crate::counting::{lemma_tally_bounds, lemma_tally_skip, lemma_tally_split, tally};
use crate::order::Score;
use crate::paths::{is_same_path, same_path};
use std::collections::BTreeSet;
use vstd::prelude::*;

verus! {

broadcast use vstd::std_specs::btree::group_btree_axioms;

/// What is wrong with a row of the index columns.
#[derive(Clone, Copy, PartialEq, Eq, Structural, Debug)]
pub enum SequenceError {
    /// The two columns have different lengths.
    LengthsDiffer,
    NegativeEpisode { row: usize },
    StepDiscontinuity { episode: i64, row: usize, previous: i64, step: i64 },
    /// An episode that does not start at step zero.
    LateStart { episode: i64, step: i64 },
    /// An episode that has ended before.
    SplitEpisode { episode: i64 },
}

/// Row `row` is the first of a run of rows of one episode.
pub open spec fn starts_block(episodes: Seq<i64>, row: int) -> bool {
    row == 0 || episodes[row] != episodes[row - 1]
}

/// The episode of row `row` occurs in an earlier row.
pub open spec fn seen_before(episodes: Seq<i64>, row: int) -> bool {
    exists|earlier: int| 0 <= earlier < row && episodes[earlier] == episodes[row]
}

/// What is wrong with row `row`, given the rows before it.
pub open spec fn row_fault(episodes: Seq<i64>, steps: Seq<i64>, row: int) -> Option<SequenceError> {
    let episode = episodes[row];
    let step = steps[row];
    if episode < 0 {
        Some(SequenceError::NegativeEpisode { row: row as usize })
    } else if !starts_block(episodes, row) {
        if step == steps[row - 1] + 1 {
            None
        } else {
            Some(
                SequenceError::StepDiscontinuity {
                    episode,
                    row: row as usize,
                    previous: steps[row - 1],
                    step,
                },
            )
        }
    } else if step != 0 {
        Some(SequenceError::LateStart { episode, step })
    } else if seen_before(episodes, row) {
        Some(SequenceError::SplitEpisode { episode })
    } else {
        None
    }
}

/// Every episode is one contiguous run of rows whose steps count from zero.
pub open spec fn valid_sequence(episodes: Seq<i64>, steps: Seq<i64>) -> bool {
    &&& episodes.len() == steps.len()
    &&& forall|row: int|
        0 <= row < episodes.len() ==> #[trigger] row_fault(episodes, steps, row) is None
}

/// The fault that is reported: that of the first faulty row.
pub open spec fn reported_fault(
    episodes: Seq<i64>,
    steps: Seq<i64>,
    error: SequenceError,
) -> bool {
    if episodes.len() != steps.len() {
        error == SequenceError::LengthsDiffer
    } else {
        exists|row: int|
            {
                &&& 0 <= row < episodes.len()
                &&& #[trigger] row_fault(episodes, steps, row) == Some(error)
                &&& forall|earlier: int|
                    0 <= earlier < row ==> #[trigger] row_fault(episodes, steps, earlier) is None
            }
    }
}

/// Checks the episode and step columns, and counts the episodes.
pub fn validate_sequence_index(episodes: &[i64], steps: &[i64]) -> (result: Result<
    usize,
    SequenceError,
>)
    ensures
        match result {
            Ok(count) => valid_sequence(episodes@, steps@) && count == episodes@.to_set().len(),
            Err(error) => !valid_sequence(episodes@, steps@) && reported_fault(
                episodes@,
                steps@,
                error,
            ),
        },
{
    if episodes.len() != steps.len() {
        return Err(SequenceError::LengthsDiffer);
    }
    let mut seen: BTreeSet<i64> = BTreeSet::new();
    let mut row: usize = 0;
    assert(seen@ =~= episodes@.take(0).to_set());
    while row < episodes.len()
        invariant
            row <= episodes@.len() == steps@.len(),
            seen@ == episodes@.take(row as int).to_set(),
            forall|earlier: int|
                0 <= earlier < row ==> #[trigger] row_fault(episodes@, steps@, earlier) is None,
        decreases episodes@.len() - row,
    {
        let episode: i64 = episodes[row];
        let step: i64 = steps[row];
        assert(seen@.contains(episode) <==> seen_before(episodes@, row as int)) by {
            let before = episodes@.take(row as int);
            if seen@.contains(episode) {
                let earlier = choose|i: int| 0 <= i < before.len() && before[i] == episode;
                assert(episodes@[earlier] == episode);
            }
            if seen_before(episodes@, row as int) {
                let earlier = choose|earlier: int|
                    0 <= earlier < row && episodes@[earlier] == episodes@[row as int];
                assert(before[earlier] == episode);
            }
        }
        assert(episodes@.take(row + 1).to_set() =~= seen@.insert(episode)) by {
            let before = episodes@.take(row as int);
            let after = episodes@.take(row + 1);
            assert(after =~= before.push(episode));
            assert forall|value: i64| after.to_set().contains(value) == seen@.insert(
                episode,
            ).contains(value) by {
                if seen@.contains(value) {
                    let place = choose|i: int| 0 <= i < before.len() && before[i] == value;
                    assert(after[place] == value);
                }
                assert(after[row as int] == episode);
                if after.to_set().contains(value) {
                    let place = choose|i: int| 0 <= i < after.len() && after[i] == value;
                    if place < row {
                        assert(before[place] == value);
                    }
                }
            }
        }
        if episode < 0 {
            assert(row_fault(episodes@, steps@, row as int) is Some);
            return Err(SequenceError::NegativeEpisode { row });
        }
        if row > 0 && episodes[row - 1] == episode {
            let previous: i64 = steps[row - 1];
            if previous == i64::MAX || step != previous + 1 {
                assert(row_fault(episodes@, steps@, row as int) is Some);
                return Err(SequenceError::StepDiscontinuity { episode, row, previous, step });
            }
            assert(episodes@[row - 1] == episode);
            assert(seen_before(episodes@, row as int));
            assert(seen@.insert(episode) =~= seen@);
        } else {
            if step != 0 {
                assert(row_fault(episodes@, steps@, row as int) is Some);
                return Err(SequenceError::LateStart { episode, step });
            }
            if !seen.insert(episode) {
                assert(row_fault(episodes@, steps@, row as int) is Some);
                return Err(SequenceError::SplitEpisode { episode });
            }
        }
        assert(row_fault(episodes@, steps@, row as int) is None);
        row = row + 1;
    }
    assert(episodes@.take(row as int) =~= episodes@);
    Ok(seen.len())
}

/// In valid index columns two rows of one episode are as far apart as their steps: no row of an
/// episode is missing, moved or foreign.
pub proof fn law_steps_measure_distance(
    episodes: Seq<i64>,
    steps: Seq<i64>,
    first: int,
    second: int,
)
    requires
        valid_sequence(episodes, steps),
        0 <= first <= second < episodes.len(),
        episodes[first] == episodes[second],
    ensures
        steps[second] - steps[first] == second - first,
        forall|row: int| first <= row <= second ==> episodes[row] == episodes[first],
    decreases second - first,
{
    if first < second {
        assert(row_fault(episodes, steps, second) is None);
        if starts_block(episodes, second) {
            assert(seen_before(episodes, second));
        }
        law_steps_measure_distance(episodes, steps, first, second - 1);
    }
}

/// Index columns are valid exactly where no episode is negative, every row that follows one of its
/// own episode has the next step, and every other row has step zero and begins an episode that no
/// earlier row belongs to.
#[verifier::spinoff_prover]
pub proof fn law_episodes_count_their_steps(episodes: Seq<i64>, steps: Seq<i64>)
    requires
        episodes.len() == steps.len(),
    ensures
        valid_sequence(episodes, steps) <==> forall|row: int|
            0 <= row < episodes.len() ==> {
                &&& #[trigger] episodes[row] >= 0
                &&& row > 0 && episodes[row - 1] == episodes[row] ==> steps[row] == steps[row - 1]
                    + 1
                &&& row == 0 || episodes[row - 1] != episodes[row] ==> steps[row] == 0 && forall|
                    earlier: int,
                |
                    0 <= earlier < row ==> #[trigger] episodes[earlier] != episodes[row]
            },
{
    if valid_sequence(episodes, steps) {
        assert forall|row: int| 0 <= row < episodes.len() implies {
            &&& #[trigger] episodes[row] >= 0
            &&& row > 0 && episodes[row - 1] == episodes[row] ==> steps[row] == steps[row - 1] + 1
            &&& row == 0 || episodes[row - 1] != episodes[row] ==> steps[row] == 0 && forall|
                earlier: int,
            |
                0 <= earlier < row ==> #[trigger] episodes[earlier] != episodes[row]
        } by {
            assert(row_fault(episodes, steps, row) is None);
        }
    } else {
        let row = choose|row: int|
            0 <= row < episodes.len() && #[trigger] row_fault(episodes, steps, row) is Some;
        assert(episodes[row] >= 0 ==> row_fault(episodes, steps, row) is Some);
    }
}

/// A fault of a row names what is wrong with it, by the values that are wrong.
pub proof fn law_faults_name_their_row(episodes: Seq<i64>, steps: Seq<i64>, row: int)
    requires
        0 <= row < episodes.len() <= usize::MAX,
        episodes.len() == steps.len(),
    ensures
        match row_fault(episodes, steps, row) {
            None => true,
            Some(SequenceError::LengthsDiffer) => false,
            Some(SequenceError::NegativeEpisode { row: at }) => at == row && episodes[row] < 0,
            Some(SequenceError::StepDiscontinuity { episode, row: at, previous, step }) => {
                &&& at == row > 0
                &&& episode == episodes[row] == episodes[row - 1]
                &&& previous == steps[row - 1]
                &&& step == steps[row]
                &&& step != previous + 1
            },
            Some(SequenceError::LateStart { episode, step }) => {
                &&& row == 0 || episodes[row - 1] != episodes[row]
                &&& episode == episodes[row]
                &&& step == steps[row]
                &&& step != 0
            },
            Some(SequenceError::SplitEpisode { episode }) => {
                &&& row > 0 && episodes[row - 1] != episodes[row]
                &&& episode == episodes[row]
                &&& exists|earlier: int|
                    0 <= earlier < row - 1 && #[trigger] episodes[earlier] == episode
            },
        },
{
    if row_fault(episodes, steps, row) matches Some(SequenceError::SplitEpisode { .. }) {
        let earlier = choose|earlier: int|
            0 <= earlier < row && episodes[earlier] == episodes[row];
        assert(earlier != row - 1);
        assert(episodes[earlier] == episodes[row]);
    }
}

/// Columns of different lengths are reported as such; otherwise the fault of some row is, and no row
/// before it has one.
pub proof fn law_the_first_fault_is_reported(
    episodes: Seq<i64>,
    steps: Seq<i64>,
    error: SequenceError,
)
    requires
        reported_fault(episodes, steps, error),
    ensures
        error == SequenceError::LengthsDiffer <==> episodes.len() != steps.len(),
        episodes.len() == steps.len() ==> exists|row: int|
            {
                &&& 0 <= row < episodes.len()
                &&& #[trigger] row_fault(episodes, steps, row) == Some(error)
                &&& forall|earlier: int|
                    0 <= earlier < row ==> #[trigger] row_fault(episodes, steps, earlier) is None
            },
{
}

/// The row behind the last one of the run of rows that row `start` belongs to.
pub open spec fn block_end(episodes: Seq<i64>, start: int) -> int
    decreases episodes.len() - start,
{
    if 0 <= start && start + 1 < episodes.len() && episodes[start + 1] == episodes[start] {
        block_end(episodes, start + 1)
    } else {
        start + 1
    }
}

/// The first row of the run of rows that row `row` belongs to.
pub open spec fn block_start(episodes: Seq<i64>, row: int) -> int
    decreases row,
{
    if row <= 0 || starts_block(episodes, row) {
        row
    } else {
        block_start(episodes, row - 1)
    }
}

/// Finds for each row the first row of its episode's run.
pub fn block_starts(episodes: &[i64]) -> (starts: Vec<usize>)
    ensures
        starts@.len() == episodes@.len(),
        forall|row: int|
            0 <= row < starts@.len() ==> #[trigger] starts@[row] == block_start(episodes@, row),
{
    let mut starts: Vec<usize> = Vec::new();
    let mut row: usize = 0;
    while row < episodes.len()
        invariant
            row == starts@.len() <= episodes@.len(),
            forall|earlier: int|
                0 <= earlier < row ==> #[trigger] starts@[earlier] == block_start(
                    episodes@,
                    earlier,
                ),
        decreases episodes@.len() - row,
    {
        if row > 0 && episodes[row] == episodes[row - 1] {
            let start: usize = starts[row - 1];
            starts.push(start);
        } else {
            starts.push(row);
        }
        row = row + 1;
    }
    starts
}

/// The run of rows that a row belongs to reaches back to where its episode began, and no further.
pub proof fn law_runs_begin_with_their_episode(episodes: Seq<i64>, row: int)
    requires
        0 <= row < episodes.len(),
    ensures
        0 <= block_start(episodes, row) <= row,
        forall|at: int|
            block_start(episodes, row) <= at <= row ==> #[trigger] episodes[at] == episodes[row],
        block_start(episodes, row) > 0 ==> episodes[block_start(episodes, row) - 1]
            != episodes[row],
    decreases row,
{
    if row > 0 && episodes[row] == episodes[row - 1] {
        law_runs_begin_with_their_episode(episodes, row - 1);
    }
}

/// The run of rows that a row belongs to reaches as far as its episode goes on, and no further.
pub proof fn law_runs_end_with_their_episode(episodes: Seq<i64>, start: int)
    requires
        0 <= start < episodes.len(),
    ensures
        start < block_end(episodes, start) <= episodes.len(),
        forall|at: int|
            start <= at < block_end(episodes, start) ==> #[trigger] episodes[at]
                == episodes[start],
        block_end(episodes, start) < episodes.len() ==> episodes[block_end(episodes, start)]
            != episodes[start],
    decreases episodes.len() - start,
{
    if start + 1 < episodes.len() && episodes[start + 1] == episodes[start] {
        law_runs_end_with_their_episode(episodes, start + 1);
    }
}

/// How the episodes of one domain fly.
#[derive(Clone, Copy, Debug)]
pub struct DomainCoverage {
    pub domain: usize,
    pub episodes: usize,
    pub hover_episodes: usize,
    pub moving_episodes: usize,
}

/// The domain changes inside the run of rows that row `row` belongs to.
pub open spec fn changes_domain(episodes: Seq<i64>, domains: Seq<i64>, row: int) -> bool {
    !starts_block(episodes, row) && domains[row] != domains[row - 1]
}

/// Some row of the run beginning at `start` lies away from its beginning.
pub open spec fn block_moves(episodes: Seq<i64>, displaced: Seq<bool>, start: int) -> bool {
    exists|row: int| start < row < block_end(episodes, start) && displaced[row]
}

/// The runs of rows of one domain.
pub open spec fn flown_in(episodes: Seq<i64>, domains: Seq<i64>, domain: int) -> spec_fn(
    int,
) -> bool {
    |row: int| starts_block(episodes, row) && domains[row] == domain
}

/// The runs of rows of one domain that move, or those that do not.
pub open spec fn flown_moving(
    episodes: Seq<i64>,
    domains: Seq<i64>,
    displaced: Option<Seq<bool>>,
    domain: int,
    moving: bool,
) -> spec_fn(int) -> bool {
    |row: int|
        {
            &&& starts_block(episodes, row)
            &&& domains[row] == domain
            &&& displaced matches Some(values)
            &&& block_moves(episodes, values, row) == moving
        }
}

/// The coverage of domain `domain` by the runs that begin below `end`.
pub open spec fn covers(
    coverage: DomainCoverage,
    episodes: Seq<i64>,
    domains: Seq<i64>,
    displaced: Option<Seq<bool>>,
    domain: int,
    end: int,
) -> bool {
    &&& coverage.domain == domain
    &&& coverage.episodes == tally(end, flown_in(episodes, domains, domain))
    &&& coverage.hover_episodes == tally(
        end,
        flown_moving(episodes, domains, displaced, domain, false),
    )
    &&& coverage.moving_episodes == tally(
        end,
        flown_moving(episodes, domains, displaced, domain, true),
    )
}

/// The sequence behind an optional slice.
pub open spec fn optional_view(values: Option<&[bool]>) -> Option<Seq<bool>> {
    match values {
        Some(slice) => Some(slice@),
        None => None,
    }
}

proof fn lemma_block_end(episodes: Seq<i64>, start: int)
    requires
        0 <= start < episodes.len(),
    ensures
        start < block_end(episodes, start) <= episodes.len(),
        forall|row: int|
            start < row < block_end(episodes, start) ==> !(#[trigger] starts_block(episodes, row)),
    decreases episodes.len() - start,
{
    if start + 1 < episodes.len() && episodes[start + 1] == episodes[start] {
        lemma_block_end(episodes, start + 1);
    }
}

fn find_block_end(episodes: &[i64], start: usize) -> (end: usize)
    requires
        start < episodes@.len(),
    ensures
        end == block_end(episodes@, start as int),
{
    let total: usize = episodes.len();
    let mut end: usize = start + 1;
    while end < total && episodes[end] == episodes[end - 1]
        invariant
            start < end <= total == episodes@.len(),
            block_end(episodes@, start as int) == block_end(episodes@, end - 1),
        decreases episodes@.len() - end,
    {
        end = end + 1;
    }
    end
}

/// The key of the distance beyond which a reference lies away from where its episode began, a
/// tenth of a millimetre as a 32-bit float has it.
pub const DISPLACEMENT_KEY: i64 = 0x3f1a_36e2_e000_0000;

/// A reference whose coordinates differ by `offset` from where its episode began lies away from
/// there.
pub open spec fn is_displaced(offset: [Score; 3]) -> bool {
    offset@[0].over_key(DISPLACEMENT_KEY) || offset@[1].over_key(DISPLACEMENT_KEY)
        || offset@[2].over_key(DISPLACEMENT_KEY)
}

/// A reference lies away from where its episode began where one of its coordinates differs by more
/// than a tenth of a millimetre, whichever it is.
pub proof fn law_any_coordinate_displaces(offset: [Score; 3])
    ensures
        is_displaced(offset) <==> exists|axis: int|
            0 <= axis < 3 && Score::Key(0x3f1a_36e2_e000_0000).below(#[trigger] offset@[axis]),
{
    assert forall|axis: int| 0 <= axis < 3 && Score::Key(0x3f1a_36e2_e000_0000).below(
        #[trigger] offset@[axis],
    ) implies is_displaced(offset) by {}
    if offset@[0].over_key(DISPLACEMENT_KEY) {
        assert(Score::Key(0x3f1a_36e2_e000_0000).below(offset@[0]));
    } else if offset@[1].over_key(DISPLACEMENT_KEY) {
        assert(Score::Key(0x3f1a_36e2_e000_0000).below(offset@[1]));
    } else if offset@[2].over_key(DISPLACEMENT_KEY) {
        assert(Score::Key(0x3f1a_36e2_e000_0000).below(offset@[2]));
    }
}

/// Finds the rows whose reference lies away from that of the first row of their episode's run, by
/// how far each coordinate differs from there.
pub fn displaced_rows(offsets: &Vec<[Score; 3]>) -> (displaced: Vec<bool>)
    ensures
        displaced@.len() == offsets@.len(),
        forall|row: int|
            0 <= row < offsets@.len() ==> #[trigger] displaced@[row] == is_displaced(offsets@[row]),
{
    let mut displaced: Vec<bool> = Vec::new();
    let mut row: usize = 0;
    while row < offsets.len()
        invariant
            row <= offsets@.len(),
            displaced@.len() == row,
            forall|earlier: int|
                0 <= earlier < row ==> #[trigger] displaced@[earlier] == is_displaced(
                    offsets@[earlier],
                ),
        decreases offsets@.len() - row,
    {
        let offset: [Score; 3] = offsets[row];
        let away = offset[0].is_over_key(DISPLACEMENT_KEY) || offset[1].is_over_key(
            DISPLACEMENT_KEY,
        ) || offset[2].is_over_key(DISPLACEMENT_KEY);
        displaced.push(away);
        row = row + 1;
    }
    displaced
}

/// Counts for each domain its episodes, those that hover and those that move.
///
/// `displaced` says of each row whether its reference lies away from that of the first row of its
/// episode's run; without it no episode counts as either. An episode whose domain changes is
/// refused.
pub fn classify_domain_coverage(
    episodes: &[i64],
    domains: &[i64],
    displaced: Option<&[bool]>,
    count: usize,
) -> (result: Result<Vec<DomainCoverage>, i64>)
    requires
        domains@.len() == episodes@.len(),
        optional_view(displaced) matches Some(values) ==> values.len() == episodes@.len(),
        forall|row: int| 0 <= row < domains@.len() ==> 0 <= #[trigger] domains@[row] < count,
    ensures
        match result {
            Ok(coverage) => {
                &&& forall|row: int|
                    0 <= row < episodes@.len() ==> !(#[trigger] changes_domain(
                        episodes@,
                        domains@,
                        row,
                    ))
                &&& coverage@.len() == count
                &&& forall|domain: int|
                    0 <= domain < count ==> covers(
                        #[trigger] coverage@[domain],
                        episodes@,
                        domains@,
                        optional_view(displaced),
                        domain,
                        episodes@.len() as int,
                    )
            },
            Err(episode) => exists|row: int|
                {
                    &&& 0 <= row < episodes@.len()
                    &&& #[trigger] changes_domain(episodes@, domains@, row)
                    &&& episodes@[row] == episode
                    &&& forall|earlier: int|
                        0 <= earlier < row ==> !(#[trigger] changes_domain(
                            episodes@,
                            domains@,
                            earlier,
                        ))
                },
        },
{
    let mut coverage: Vec<DomainCoverage> = Vec::new();
    let ghost shifts = optional_view(displaced);
    let mut domain: usize = 0;
    while domain < count
        invariant
            domain == coverage@.len() <= count,
            forall|d: int|
                0 <= d < domain ==> covers(
                    #[trigger] coverage@[d],
                    episodes@,
                    domains@,
                    shifts,
                    d,
                    0,
                ),
        decreases count - domain,
    {
        coverage.push(
            DomainCoverage { domain, episodes: 0, hover_episodes: 0, moving_episodes: 0 },
        );
        domain = domain + 1;
    }
    let mut start: usize = 0;
    while start < episodes.len()
        invariant
            start <= episodes@.len() == domains@.len(),
            start == 0 || start == episodes@.len() || starts_block(episodes@, start as int),
            shifts == optional_view(displaced),
            shifts matches Some(values) ==> values.len() == episodes@.len(),
            forall|row: int| 0 <= row < domains@.len() ==> 0 <= #[trigger] domains@[row] < count,
            forall|row: int|
                0 <= row < start ==> !(#[trigger] changes_domain(episodes@, domains@, row)),
            coverage@.len() == count,
            forall|d: int|
                0 <= d < count ==> covers(
                    #[trigger] coverage@[d],
                    episodes@,
                    domains@,
                    shifts,
                    d,
                    start as int,
                ),
        decreases episodes@.len() - start,
    {
        let end: usize = find_block_end(episodes, start);
        proof {
            lemma_block_end(episodes@, start as int);
        }
        let mut moving = false;
        let mut row: usize = start + 1;
        while row < end
            invariant
                start < row <= end <= episodes@.len() == domains@.len(),
                shifts == optional_view(displaced),
                shifts matches Some(values) ==> values.len() == episodes@.len(),
                forall|r: int| start < r < end ==> !(#[trigger] starts_block(episodes@, r)),
                forall|r: int|
                    0 <= r < row ==> !(#[trigger] changes_domain(episodes@, domains@, r)),
                moving == (shifts matches Some(values) && exists|r: int|
                    start < r < row && values[r]),
            decreases end - row,
        {
            assert(!starts_block(episodes@, row as int));
            if domains[row] != domains[row - 1] {
                assert(changes_domain(episodes@, domains@, row as int));
                return Err(episodes[row]);
            }
            if let Some(values) = displaced {
                if values[row] {
                    moving = true;
                }
            }
            row = row + 1;
        }
        let place: usize = domains[start] as usize;
        let ghost before = coverage@;
        proof {
            assert forall|d: int| 0 <= d < count implies {
                let fly = flown_in(episodes@, domains@, d);
                let hover = flown_moving(episodes@, domains@, shifts, d, false);
                let move_ = flown_moving(episodes@, domains@, shifts, d, true);
                &&& tally(end as int, fly) == tally(start as int, fly) + (if d == place {
                    1int
                } else {
                    0
                })
                &&& tally(end as int, hover) == tally(start as int, hover) + (if d == place
                    && shifts is Some && !moving {
                    1int
                } else {
                    0
                })
                &&& tally(end as int, move_) == tally(start as int, move_) + (if d == place
                    && moving {
                    1int
                } else {
                    0
                })
                &&& 0 <= tally(start as int, fly) <= start
                &&& 0 <= tally(start as int, hover) <= start
                &&& 0 <= tally(start as int, move_) <= start
                &&& #[trigger] coverage@[d].domain == d
            } by {
                let fly = flown_in(episodes@, domains@, d);
                let hover = flown_moving(episodes@, domains@, shifts, d, false);
                let move_ = flown_moving(episodes@, domains@, shifts, d, true);
                lemma_tally_skip(start + 1, end as int, fly);
                lemma_tally_skip(start + 1, end as int, hover);
                lemma_tally_skip(start + 1, end as int, move_);
                lemma_tally_bounds(start as int, fly);
                lemma_tally_bounds(start as int, hover);
                lemma_tally_bounds(start as int, move_);
                assert(starts_block(episodes@, start as int));
                assert(covers(coverage@[d], episodes@, domains@, shifts, d, start as int));
            }
        }
        let entry: DomainCoverage = coverage[place];
        assert(entry.episodes <= start && entry.hover_episodes <= start && entry.moving_episodes
            <= start);
        let hovering = displaced.is_some() && !moving;
        coverage.set(
            place,
            DomainCoverage {
                domain: entry.domain,
                episodes: entry.episodes + 1,
                hover_episodes: if hovering {
                    entry.hover_episodes + 1
                } else {
                    entry.hover_episodes
                },
                moving_episodes: if moving {
                    entry.moving_episodes + 1
                } else {
                    entry.moving_episodes
                },
            },
        );
        proof {
            assert forall|d: int| 0 <= d < count implies covers(
                #[trigger] coverage@[d],
                episodes@,
                domains@,
                shifts,
                d,
                end as int,
            ) by {
                assert(covers(before[d], episodes@, domains@, shifts, d, start as int));
                assert(before[d].domain == d);
            }
            lemma_block_ends_run(episodes@, start as int);
        }
        start = end;
    }
    Ok(coverage)
}

proof fn lemma_block_ends_run(episodes: Seq<i64>, start: int)
    requires
        0 <= start < episodes.len(),
    ensures
        block_end(episodes, start) == episodes.len() || starts_block(
            episodes,
            block_end(episodes, start),
        ),
    decreases episodes.len() - start,
{
    if start + 1 < episodes.len() && episodes[start + 1] == episodes[start] {
        lemma_block_ends_run(episodes, start + 1);
    }
}

/// With references, every episode of a domain either hovers or moves.
pub proof fn law_episodes_hover_or_move(
    coverage: DomainCoverage,
    episodes: Seq<i64>,
    domains: Seq<i64>,
    displaced: Seq<bool>,
    domain: int,
)
    requires
        covers(coverage, episodes, domains, Some(displaced), domain, episodes.len() as int),
    ensures
        coverage.hover_episodes + coverage.moving_episodes == coverage.episodes,
{
    lemma_tally_split(
        episodes.len() as int,
        flown_in(episodes, domains, domain),
        flown_moving(episodes, domains, Some(displaced), domain, false),
        flown_moving(episodes, domains, Some(displaced), domain, true),
    );
}

/// An episode moves exactly where one of its later rows lies away from its beginning.
#[verifier::spinoff_prover]
pub proof fn law_episodes_move_where_a_row_is_displaced(
    episodes: Seq<i64>,
    displaced: Seq<bool>,
    start: int,
)
    requires
        0 <= start < episodes.len(),
        displaced.len() == episodes.len(),
    ensures
        block_moves(episodes, displaced, start) <==> exists|row: int|
            start < row < episodes.len() && #[trigger] displaced[row] && forall|at: int|
                start <= at <= row ==> #[trigger] episodes[at] == episodes[start],
{
    law_runs_end_with_their_episode(episodes, start);
    let end = block_end(episodes, start);
    if block_moves(episodes, displaced, start) {
        let row = choose|row: int| start < row < end && displaced[row];
        assert(displaced[row]);
    }
    assert forall|row: int|
        start < row < episodes.len() && #[trigger] displaced[row] && (forall|at: int|
            start <= at <= row ==> #[trigger] episodes[at]
                == episodes[start]) implies block_moves(episodes, displaced, start) by {
        if row >= end {
            assert(episodes[end] == episodes[start]);
        }
        assert(start < row < end && displaced[row]);
    }
}

/// A row adds an episode to a domain exactly where it begins one there, and then adds it to those
/// that move or to those that hover, by whether it moves; without references to neither. An episode
/// changes its domain where a row is of another one than the row of the same episode before it.
pub proof fn law_episodes_are_counted_where_they_begin(
    before: DomainCoverage,
    after: DomainCoverage,
    episodes: Seq<i64>,
    domains: Seq<i64>,
    displaced: Option<Seq<bool>>,
    domain: int,
    row: int,
)
    requires
        0 <= row < episodes.len(),
        domains.len() == episodes.len(),
        covers(before, episodes, domains, displaced, domain, row),
        covers(after, episodes, domains, displaced, domain, row + 1),
    ensures
        ({
            let begins = (row == 0 || episodes[row] != episodes[row - 1]) && domains[row] == domain;
            &&& after.domain == domain
            &&& begins ==> after.episodes == before.episodes + 1
            &&& !begins ==> after.episodes == before.episodes && after.hover_episodes
                == before.hover_episodes && after.moving_episodes == before.moving_episodes
            &&& begins && displaced is None ==> after.hover_episodes == before.hover_episodes
                && after.moving_episodes == before.moving_episodes
            &&& begins && displaced is Some && block_moves(episodes, displaced->0, row)
                ==> after.hover_episodes == before.hover_episodes && after.moving_episodes
                == before.moving_episodes + 1
            &&& begins && displaced is Some && !block_moves(episodes, displaced->0, row)
                ==> after.hover_episodes == before.hover_episodes + 1 && after.moving_episodes
                == before.moving_episodes
            &&& changes_domain(episodes, domains, row) <==> row > 0 && episodes[row]
                == episodes[row - 1] && domains[row] != domains[row - 1]
        }),
{
}

/// Why the domain table does not fit the data.
#[derive(Clone, Copy, PartialEq, Eq, Structural, Debug)]
pub enum DomainError {
    /// The table is empty.
    NoDomains,
    /// The entry at `position` carries another index.
    Misplaced { index: usize, position: usize },
    /// The metadata declares another number of domains.
    Declared { declared: usize, found: usize },
    /// The data uses another number of domains.
    Unused { used: usize, found: usize },
    /// A row names a domain that the table does not hold.
    OutOfRange,
}

/// The table's entries carry their positions, and their number is the declared one.
pub open spec fn valid_table(indices: Seq<usize>, declared: Option<usize>) -> bool {
    &&& indices.len() > 0
    &&& forall|i: int| 0 <= i < indices.len() ==> #[trigger] indices[i] == i
    &&& declared matches Some(count) ==> count == indices.len()
}

/// A table is valid exactly where it lists its domains from zero on, at least one of them and as many
/// as are declared.
pub proof fn law_tables_list_their_domains(indices: Seq<usize>, declared: Option<usize>)
    requires
        indices.len() <= usize::MAX,
    ensures
        valid_table(indices, declared) <==> indices.len() > 0 && indices == Seq::new(
            indices.len(),
            |i: int| i as usize,
        ) && (declared is None || declared == Some(indices.len() as usize)),
{
    if valid_table(indices, declared) {
        assert(indices =~= Seq::new(indices.len(), |i: int| i as usize));
    } else if indices == Seq::new(indices.len(), |i: int| i as usize) {
        assert forall|i: int| 0 <= i < indices.len() implies #[trigger] indices[i] == i by {}
    }
}

/// Checks the indices of the domain table and their number.
pub fn validate_domain_table(indices: &[usize], declared: Option<usize>) -> (result: Result<
    (),
    DomainError,
>)
    ensures
        match result {
            Ok(()) => valid_table(indices@, declared),
            Err(DomainError::NoDomains) => indices@.len() == 0,
            Err(DomainError::Misplaced { index, position }) => {
                &&& position < indices@.len()
                &&& indices@[position as int] == index
                &&& index != position
                &&& forall|i: int| 0 <= i < position ==> #[trigger] indices@[i] == i
            },
            Err(DomainError::Declared { declared: count, found }) => {
                &&& indices@.len() > 0
                &&& forall|i: int| 0 <= i < indices@.len() ==> #[trigger] indices@[i] == i
                &&& declared == Some(count)
                &&& found == indices@.len()
                &&& count != found
            },
            Err(_) => false,
        },
{
    let found: usize = indices.len();
    if found == 0 {
        return Err(DomainError::NoDomains);
    }
    let mut position: usize = 0;
    while position < found
        invariant
            position <= found == indices@.len(),
            forall|i: int| 0 <= i < position ==> #[trigger] indices@[i] == i,
        decreases found - position,
    {
        let index: usize = indices[position];
        if index != position {
            return Err(DomainError::Misplaced { index, position });
        }
        position = position + 1;
    }
    match declared {
        Some(count) if count != found => Err(DomainError::Declared { declared: count, found }),
        _ => Ok(()),
    }
}

/// Every row names a domain of the table.
pub open spec fn domains_in_range(domains: Seq<i64>, count: int) -> bool {
    forall|row: int| 0 <= row < domains.len() ==> 0 <= #[trigger] domains[row] < count
}

/// Domains are counted from zero: the table holds all below its length and no other.
pub proof fn law_domains_lie_below_their_number(domains: Seq<i64>, count: int, domain: i64)
    ensures
        domains_in_range(domains, count) && domains.contains(domain) ==> 0 <= domain < count,
        domains_in_range(domains, count) && 0 <= domain < count ==> domains_in_range(
            domains.push(domain),
            count,
        ),
        domains_in_range(Seq::empty(), count),
{
}

/// Checks that the rows use the table's domains, all of them and no others.
pub fn validate_domain_column(domains: &[i64], count: usize) -> (result: Result<(), DomainError>)
    ensures
        match result {
            Ok(()) => domains@.to_set().len() == count && domains_in_range(domains@, count as int),
            Err(DomainError::Unused { used, found }) => used == domains@.to_set().len() && found
                == count && used != found,
            Err(DomainError::OutOfRange) => domains@.to_set().len() == count
                && !domains_in_range(domains@, count as int),
            Err(_) => false,
        },
{
    let mut used: BTreeSet<i64> = BTreeSet::new();
    let mut in_range = true;
    let mut row: usize = 0;
    assert(used@ =~= domains@.take(0).to_set());
    while row < domains.len()
        invariant
            row <= domains@.len(),
            used@ == domains@.take(row as int).to_set(),
            in_range == domains_in_range(domains@.take(row as int), count as int),
        decreases domains@.len() - row,
    {
        let domain: i64 = domains[row];
        let ghost before = domains@.take(row as int);
        let ghost after = domains@.take(row + 1);
        assert(after =~= before.push(domain));
        if domain < 0 || domain as u64 >= count as u64 {
            in_range = false;
            assert(after[row as int] == domain);
        }
        assert(in_range == domains_in_range(after, count as int)) by {
            if domains_in_range(after, count as int) {
                assert forall|r: int| 0 <= r < before.len() implies 0 <= #[trigger] before[r]
                    < count by {
                    assert(before[r] == after[r]);
                }
            }
        }
        assert(after.to_set() =~= used@.insert(domain)) by {
            assert forall|value: i64| after.to_set().contains(value) == used@.insert(
                domain,
            ).contains(value) by {
                if used@.contains(value) {
                    let place = choose|i: int| 0 <= i < before.len() && before[i] == value;
                    assert(after[place] == value);
                }
                assert(after[row as int] == domain);
                if after.to_set().contains(value) {
                    let place = choose|i: int| 0 <= i < after.len() && after[i] == value;
                    if place < row {
                        assert(before[place] == value);
                    }
                }
            }
        }
        used.insert(domain);
        row = row + 1;
    }
    assert(domains@.take(row as int) =~= domains@);
    let distinct: usize = used.len();
    if distinct != count {
        return Err(DomainError::Unused { used: distinct, found: count });
    }
    if !in_range {
        return Err(DomainError::OutOfRange);
    }
    Ok(())
}

/// The key of the largest deviation of a time step that is accepted, a millionth of a second.
pub const TIME_STEP_KEY: i64 = 0x3eb0_c6f7_a0b5_ed8d;

/// The limits that the measured quantities are held to.
#[derive(Clone, Copy, Debug)]
pub struct AuditLimits {
    pub max_rotation_error: Score,
    pub max_tracking_rmse_m: Score,
    pub max_ground_fraction: Score,
    pub max_saturation_fraction: Score,
    pub min_action_std: Score,
    pub min_differential_action_std: Score,
    pub min_action_delta_std: Score,
}

/// How much the rotors of one domain are excited, channel by channel.
#[derive(Debug)]
pub struct Excitation {
    pub differential_action_std: Vec<Score>,
    pub action_delta_std: Vec<Score>,
}

/// What the audit measured.
#[derive(Debug)]
pub struct AuditMeasures {
    pub has_references: bool,
    pub coverage: Vec<DomainCoverage>,
    /// One entry for each domain.
    pub excitation: Vec<Excitation>,
    pub max_dt_error: Score,
    pub max_rotation_error: Score,
    pub determinant_min: Score,
    /// How far the smallest determinant lies from one.
    pub determinant_error: Score,
    pub position_tracking_rmse: Option<Score>,
    pub ground_fraction: Score,
    pub saturation_fraction: Score,
    /// One entry for each action channel.
    pub action_std: Vec<Score>,
    pub action_differential_std: Vec<Score>,
    pub action_delta_std: Vec<Score>,
}

/// The key of the largest command of a rotor at its lower limit, a millionth of a newton.
pub const LOW_COMMAND_KEY: i64 = 0x3eb0_c6f7_a0b5_ed8d;

/// The rotors of the vehicle; each row has a command for every one.
pub const ROTORS: usize = 4;

/// How often the rows touch a limit.
#[derive(Clone, Copy, PartialEq, Eq, Structural, Debug)]
pub struct LimitCounts {
    pub ground_contacts: usize,
    pub low_commands: usize,
    pub high_commands: usize,
}

/// How many of the heights are on the ground.
pub open spec fn ground_contacts(heights: Seq<Score>) -> int {
    tally(heights.len() as int, |row: int| heights[row].at_most(Score::Key(GROUND_KEY)))
}

/// How many of the commands are at their lower limit.
pub open spec fn low_commands(commands: Seq<Score>) -> int {
    tally(commands.len() as int, |i: int| commands[i].at_most(Score::Key(LOW_COMMAND_KEY)))
}

/// How many of the commands are at their upper limit, which begins at `upper` for each row.
pub open spec fn high_commands(commands: Seq<Score>, upper: Seq<Score>) -> int {
    tally(commands.len() as int, |i: int| upper[i / ROTORS as int].at_most(commands[i]))
}

/// Counts how often the rows touch a limit, by the heights of the rows, by the commands of the
/// rotors, row by row, and by the upper limit of each row.
pub fn count_limits(heights: &Vec<Score>, commands: &Vec<Score>, upper: &Vec<Score>) -> (counts:
    LimitCounts)
    requires
        commands@.len() == heights@.len() * ROTORS,
        upper@.len() == heights@.len(),
    ensures
        counts.ground_contacts == ground_contacts(heights@),
        counts.low_commands == low_commands(commands@),
        counts.high_commands == high_commands(commands@, upper@),
{
    let ghost on_ground = |row: int| heights@[row].at_most(Score::Key(GROUND_KEY));
    let ghost is_low = |i: int| commands@[i].at_most(Score::Key(LOW_COMMAND_KEY));
    let ghost is_high = |i: int| upper@[i / ROTORS as int].at_most(commands@[i]);
    let mut contacts: usize = 0;
    let mut row: usize = 0;
    while row < heights.len()
        invariant
            row <= heights@.len(),
            contacts <= row,
            on_ground == (|row: int| heights@[row].at_most(Score::Key(GROUND_KEY))),
            contacts == tally(row as int, on_ground),
        decreases heights@.len() - row,
    {
        if heights[row].is_at_most(Score::Key(GROUND_KEY)) {
            contacts = contacts + 1;
        }
        row = row + 1;
    }
    let mut low: usize = 0;
    let mut high: usize = 0;
    let mut place: usize = 0;
    while place < commands.len()
        invariant
            place <= commands@.len(),
            commands@.len() == upper@.len() * ROTORS,
            low <= place,
            high <= place,
            is_low == (|i: int| commands@[i].at_most(Score::Key(LOW_COMMAND_KEY))),
            is_high == (|i: int| upper@[i / ROTORS as int].at_most(commands@[i])),
            low == tally(place as int, is_low),
            high == tally(place as int, is_high),
        decreases commands@.len() - place,
    {
        let command: Score = commands[place];
        if command.is_at_most(Score::Key(LOW_COMMAND_KEY)) {
            low = low + 1;
        }
        if upper[place / ROTORS].is_at_most(command) {
            high = high + 1;
        }
        place = place + 1;
    }
    LimitCounts { ground_contacts: contacts, low_commands: low, high_commands: high }
}

/// A row counts as on the ground up to 0.051 metres, a command as low up to a millionth of a newton,
/// and as high from the upper limit of its own row on.
pub proof fn law_limits_are_touched_one_by_one(
    heights: Seq<Score>,
    commands: Seq<Score>,
    upper: Seq<Score>,
    next: Score,
)
    ensures
        ground_contacts(Seq::empty()) == 0,
        low_commands(Seq::empty()) == 0,
        high_commands(Seq::empty(), upper) == 0,
        ground_contacts(heights.push(next)) == ground_contacts(heights) + (if next.at_most(
            Score::Key(0x3faa_1cac_0000_0000),
        ) {
            1int
        } else {
            0int
        }),
        low_commands(commands.push(next)) == low_commands(commands) + (if next.at_most(
            Score::Key(0x3eb0_c6f7_a0b5_ed8d),
        ) {
            1int
        } else {
            0int
        }),
        high_commands(commands.push(next), upper) == high_commands(commands, upper) + (
        if upper[commands.len() as int / 4].at_most(next) {
            1int
        } else {
            0int
        }),
{
    let higher = heights.push(next);
    let more = commands.push(next);
    crate::counting::lemma_tally_agree(
        heights.len() as int,
        |row: int| heights[row].at_most(Score::Key(GROUND_KEY)),
        |row: int| higher[row].at_most(Score::Key(GROUND_KEY)),
    );
    crate::counting::lemma_tally_agree(
        commands.len() as int,
        |i: int| commands[i].at_most(Score::Key(LOW_COMMAND_KEY)),
        |i: int| more[i].at_most(Score::Key(LOW_COMMAND_KEY)),
    );
    crate::counting::lemma_tally_agree(
        commands.len() as int,
        |i: int| upper[i / ROTORS as int].at_most(commands[i]),
        |i: int| upper[i / ROTORS as int].at_most(more[i]),
    );
}

/// The rows below `end` that follow a row of their own episode.
pub open spec fn following_rows(episodes: Seq<i64>, end: int) -> Seq<usize>
    decreases end,
{
    if end <= 1 {
        Seq::empty()
    } else if episodes[end - 1] == episodes[end - 2] {
        following_rows(episodes, end - 1).push((end - 1) as usize)
    } else {
        following_rows(episodes, end - 1)
    }
}

/// Lists the rows whose action is compared with the action before: those that follow a row of
/// their own episode.
pub fn transition_rows(episodes: &[i64]) -> (rows: Vec<usize>)
    ensures
        rows@ == following_rows(episodes@, episodes@.len() as int),
{
    let mut rows: Vec<usize> = Vec::new();
    let total: usize = episodes.len();
    let mut row: usize = 1;
    while row < total
        invariant
            1 <= row,
            row <= total || (total == 0 && row == 1),
            total == episodes@.len(),
            rows@ == following_rows(episodes@, row as int),
        decreases total - row,
    {
        if episodes[row] == episodes[row - 1] {
            rows.push(row);
        }
        row = row + 1;
    }
    rows
}

/// The rows that are compared with the row before are exactly those that follow a row of their own
/// episode, in ascending order.
#[verifier::spinoff_prover]
pub proof fn law_transitions_stay_in_their_episode(episodes: Seq<i64>, end: int)
    requires
        0 <= end <= episodes.len() <= usize::MAX,
    ensures
        forall|row: usize| #[trigger]
            following_rows(episodes, end).contains(row) <==> 0 < row < end && episodes[row as int]
                == episodes[row - 1],
        forall|i: int, j: int|
            0 <= i < j < following_rows(episodes, end).len() ==> #[trigger] following_rows(
                episodes,
                end,
            )[i] < #[trigger] following_rows(episodes, end)[j],
    decreases end,
{
    if end > 1 {
        law_transitions_stay_in_their_episode(episodes, end - 1);
        let before = following_rows(episodes, end - 1);
        let rows = following_rows(episodes, end);
        assert forall|row: usize| #[trigger] rows.contains(row) <==> 0 < row < end
            && episodes[row as int] == episodes[row - 1] by {
            assert(before.contains(row) <==> 0 < row < end - 1 && episodes[row as int]
                == episodes[row - 1]);
            if before.contains(row) {
                let place = choose|i: int| 0 <= i < before.len() && before[i] == row;
                assert(rows[place] == row);
            }
            if rows.contains(row) && !before.contains(row) {
                let place = choose|i: int| 0 <= i < rows.len() && rows[i] == row;
                assert(place < before.len() ==> before[place] == row);
            }
            if row == end - 1 && episodes[row as int] == episodes[row - 1] {
                assert(rows[rows.len() - 1] == row);
            }
        }
        assert forall|i: int, j: int| 0 <= i < j < rows.len() implies #[trigger] rows[i]
            < #[trigger] rows[j] by {
            if j == before.len() {
                assert(before.contains(before[i]));
            }
        }
    }
}

/// A reason for which a data set fails its audit.
#[derive(Clone, Copy, PartialEq, Eq, Structural, Debug)]
pub enum AuditFailure {
    NoReferences,
    OneSidedCoverage { domain: usize, hover: usize, moving: usize },
    WeakExcitation { domain: usize },
    TimeSteps,
    Rotations,
    Determinants,
    Tracking,
    GroundContact,
    Saturation,
    ActionChannel(usize),
    DifferentialChannel(usize),
    DeltaChannel(usize),
}

/// The failure, unless the quantity is acceptable.
pub open spec fn unless(acceptable: bool, failure: AuditFailure) -> Seq<AuditFailure> {
    if acceptable {
        Seq::empty()
    } else {
        seq![failure]
    }
}

/// Some value of the list lies below `least`.
pub open spec fn any_below(values: Seq<Score>, least: Score) -> bool {
    exists|i: int| 0 <= i < values.len() && (#[trigger] values[i]).below(least)
}

/// The rotors of a domain are excited enough.
pub open spec fn excited(excitation: Excitation, limits: AuditLimits) -> bool {
    &&& !any_below(excitation.differential_action_std@, limits.min_differential_action_std)
    &&& !any_below(excitation.action_delta_std@, limits.min_action_delta_std)
}

/// The failures of the first `count` domains.
pub open spec fn domain_failures(
    coverage: Seq<DomainCoverage>,
    excitation: Seq<Excitation>,
    limits: AuditLimits,
    count: int,
) -> Seq<AuditFailure>
    decreases count,
{
    if count <= 0 {
        Seq::empty()
    } else {
        let last = coverage[count - 1];
        domain_failures(coverage, excitation, limits, count - 1) + unless(
            last.hover_episodes > 0 && last.moving_episodes > 0,
            AuditFailure::OneSidedCoverage {
                domain: last.domain,
                hover: last.hover_episodes,
                moving: last.moving_episodes,
            },
        ) + unless(
            excited(excitation[count - 1], limits),
            AuditFailure::WeakExcitation { domain: last.domain },
        )
    }
}

/// Which of the three lists of channels.
#[derive(Clone, Copy, PartialEq, Eq, Structural, Debug)]
pub enum ChannelKind {
    Action,
    Differential,
    Delta,
}

/// The failure of one channel.
pub open spec fn channel_failure(kind: ChannelKind, index: usize) -> AuditFailure {
    match kind {
        ChannelKind::Action => AuditFailure::ActionChannel(index),
        ChannelKind::Differential => AuditFailure::DifferentialChannel(index),
        ChannelKind::Delta => AuditFailure::DeltaChannel(index),
    }
}

/// The failures of the first `count` channels of a list: those that vary less than `least`.
pub open spec fn channel_failures(
    kind: ChannelKind,
    channels: Seq<Score>,
    least: Score,
    count: int,
) -> Seq<AuditFailure>
    decreases count,
{
    if count <= 0 {
        Seq::empty()
    } else {
        channel_failures(kind, channels, least, count - 1) + unless(
            !channels[count - 1].below(least),
            channel_failure(kind, (count - 1) as usize),
        )
    }
}

impl AuditMeasures {
    /// The smallest determinant of the rotations is positive and close to one.
    pub open spec fn proper_smallest_determinant(self, limits: AuditLimits) -> bool {
        !self.determinant_min.at_most(Score::Key(0)) && !limits.max_rotation_error.below(
            self.determinant_error,
        )
    }

    /// The references, where there are any, are followed closely enough.
    pub open spec fn tracks(self, limits: AuditLimits) -> bool {
        self.position_tracking_rmse matches Some(rmse) ==> !limits.max_tracking_rmse_m.below(rmse)
    }

    /// Everything that speaks against the data set, in the order of the report.
    pub open spec fn failures(self, limits: AuditLimits) -> Seq<AuditFailure> {
        unless(self.has_references, AuditFailure::NoReferences) + domain_failures(
            self.coverage@,
            self.excitation@,
            limits,
            self.coverage@.len() as int,
        ) + unless(!self.max_dt_error.over_key(TIME_STEP_KEY), AuditFailure::TimeSteps) + unless(
            !limits.max_rotation_error.below(self.max_rotation_error),
            AuditFailure::Rotations,
        ) + unless(self.proper_smallest_determinant(limits), AuditFailure::Determinants) + unless(
            self.tracks(limits),
            AuditFailure::Tracking,
        ) + unless(
            !limits.max_ground_fraction.below(self.ground_fraction),
            AuditFailure::GroundContact,
        ) + unless(
            !limits.max_saturation_fraction.below(self.saturation_fraction),
            AuditFailure::Saturation,
        ) + channel_failures(
            ChannelKind::Action,
            self.action_std@,
            limits.min_action_std,
            self.action_std@.len() as int,
        ) + channel_failures(
            ChannelKind::Differential,
            self.action_differential_std@,
            limits.min_differential_action_std,
            self.action_differential_std@.len() as int,
        ) + channel_failures(
            ChannelKind::Delta,
            self.action_delta_std@,
            limits.min_action_delta_std,
            self.action_delta_std@.len() as int,
        )
    }
}

fn note(found: &mut Vec<AuditFailure>, acceptable: bool, failure: AuditFailure)
    ensures
        final(found)@ == old(found)@ + unless(acceptable, failure),
{
    if !acceptable {
        found.push(failure);
        assert(found@ =~= old(found)@ + seq![failure]);
    } else {
        assert(found@ =~= old(found)@ + Seq::<AuditFailure>::empty());
    }
}

fn has_below(values: &Vec<Score>, least: Score) -> (answer: bool)
    ensures
        answer == any_below(values@, least),
{
    let mut index: usize = 0;
    while index < values.len()
        invariant
            index <= values@.len(),
            forall|i: int| 0 <= i < index ==> !(#[trigger] values@[i]).below(least),
        decreases values@.len() - index,
    {
        if values[index].is_below(least) {
            assert(values@[index as int].below(least));
            return true;
        }
        index = index + 1;
    }
    false
}

fn note_channels(
    found: &mut Vec<AuditFailure>,
    kind: ChannelKind,
    channels: &Vec<Score>,
    least: Score,
)
    ensures
        final(found)@ == old(found)@ + channel_failures(
            kind,
            channels@,
            least,
            channels@.len() as int,
        ),
{
    let ghost start = found@;
    let mut index: usize = 0;
    assert(found@ =~= start + channel_failures(kind, channels@, least, 0));
    while index < channels.len()
        invariant
            index <= channels@.len(),
            found@ == start + channel_failures(kind, channels@, least, index as int),
        decreases channels@.len() - index,
    {
        let failure = match kind {
            ChannelKind::Action => AuditFailure::ActionChannel(index),
            ChannelKind::Differential => AuditFailure::DifferentialChannel(index),
            ChannelKind::Delta => AuditFailure::DeltaChannel(index),
        };
        note(found, !channels[index].is_below(least), failure);
        index = index + 1;
        assert(found@ =~= start + channel_failures(kind, channels@, least, index as int));
    }
}

/// Draws up the failures of a data set; it passes where there are none.
pub fn audit_failures(measures: &AuditMeasures, limits: &AuditLimits) -> (found: Vec<AuditFailure>)
    requires
        measures.coverage@.len() == measures.excitation@.len(),
    ensures
        found@ == measures.failures(*limits),
{
    let mut found: Vec<AuditFailure> = Vec::new();
    note(&mut found, measures.has_references, AuditFailure::NoReferences);
    let ghost first = found@;
    let mut index: usize = 0;
    assert(found@ =~= first + domain_failures(
        measures.coverage@,
        measures.excitation@,
        *limits,
        0,
    ));
    while index < measures.coverage.len()
        invariant
            index <= measures.coverage@.len() == measures.excitation@.len(),
            found@ == first + domain_failures(
                measures.coverage@,
                measures.excitation@,
                *limits,
                index as int,
            ),
        decreases measures.coverage@.len() - index,
    {
        let entry: DomainCoverage = measures.coverage[index];
        let excitation = &measures.excitation[index];
        note(
            &mut found,
            entry.hover_episodes > 0 && entry.moving_episodes > 0,
            AuditFailure::OneSidedCoverage {
                domain: entry.domain,
                hover: entry.hover_episodes,
                moving: entry.moving_episodes,
            },
        );
        let weak = has_below(
            &excitation.differential_action_std,
            limits.min_differential_action_std,
        ) || has_below(&excitation.action_delta_std, limits.min_action_delta_std);
        note(&mut found, !weak, AuditFailure::WeakExcitation { domain: entry.domain });
        index = index + 1;
        assert(found@ =~= first + domain_failures(
            measures.coverage@,
            measures.excitation@,
            *limits,
            index as int,
        ));
    }
    note(&mut found, !measures.max_dt_error.is_over_key(TIME_STEP_KEY), AuditFailure::TimeSteps);
    note(
        &mut found,
        !limits.max_rotation_error.is_below(measures.max_rotation_error),
        AuditFailure::Rotations,
    );
    note(
        &mut found,
        !measures.determinant_min.is_at_most(Score::Key(0)) && !limits.max_rotation_error.is_below(
            measures.determinant_error,
        ),
        AuditFailure::Determinants,
    );
    let tracks = match measures.position_tracking_rmse {
        Some(rmse) => !limits.max_tracking_rmse_m.is_below(rmse),
        None => true,
    };
    note(&mut found, tracks, AuditFailure::Tracking);
    note(
        &mut found,
        !limits.max_ground_fraction.is_below(measures.ground_fraction),
        AuditFailure::GroundContact,
    );
    note(
        &mut found,
        !limits.max_saturation_fraction.is_below(measures.saturation_fraction),
        AuditFailure::Saturation,
    );
    note_channels(&mut found, ChannelKind::Action, &measures.action_std, limits.min_action_std);
    note_channels(
        &mut found,
        ChannelKind::Differential,
        &measures.action_differential_std,
        limits.min_differential_action_std,
    );
    note_channels(
        &mut found,
        ChannelKind::Delta,
        &measures.action_delta_std,
        limits.min_action_delta_std,
    );
    assert(found@ =~= measures.failures(*limits));
    found
}

proof fn lemma_domain_failures_grow(
    coverage: Seq<DomainCoverage>,
    excitation: Seq<Excitation>,
    limits: AuditLimits,
    domain: int,
    count: int,
)
    requires
        0 <= domain < count,
    ensures
        !(coverage[domain].hover_episodes > 0 && coverage[domain].moving_episodes > 0 && excited(
            excitation[domain],
            limits,
        )) ==> domain_failures(coverage, excitation, limits, count).len() > 0,
    decreases count,
{
    if domain < count - 1 {
        lemma_domain_failures_grow(coverage, excitation, limits, domain, count - 1);
    }
}

/// A data set that passes has references, and each of its domains is flown both hovering and
/// moving, with its rotors excited.
#[verifier::spinoff_prover]
pub proof fn law_passing_means_covered(measures: AuditMeasures, limits: AuditLimits, domain: int)
    requires
        measures.failures(limits).len() == 0,
        0 <= domain < measures.coverage@.len(),
    ensures
        measures.has_references,
        measures.coverage@[domain].hover_episodes > 0,
        measures.coverage@[domain].moving_episodes > 0,
        excited(measures.excitation@[domain], limits),
{
    let coverage = measures.coverage@;
    let found = coverage[domain];
    let count = coverage.len() as int;
    let one_sided = AuditFailure::OneSidedCoverage {
        domain: found.domain,
        hover: found.hover_episodes,
        moving: found.moving_episodes,
    };
    let weak = AuditFailure::WeakExcitation { domain: found.domain };
    lemma_domain_failures_grow(coverage, measures.excitation@, limits, domain, count);
    lemma_failures_contain(measures, limits, AuditFailure::NoReferences);
    lemma_failures_contain(measures, limits, one_sided);
    lemma_failures_contain(measures, limits, weak);
    lemma_unless_contains(
        measures.has_references,
        AuditFailure::NoReferences,
        AuditFailure::NoReferences,
    );
    lemma_domain_failures_contain(coverage, measures.excitation@, limits, count, one_sided);
    lemma_domain_failures_contain(coverage, measures.excitation@, limits, count, weak);
    assert(coverage[domain] == found);
}

proof fn lemma_sum_contains(first: Seq<AuditFailure>, second: Seq<AuditFailure>, failure: AuditFailure)
    ensures
        (first + second).contains(failure) <==> first.contains(failure) || second.contains(failure),
{
    let sum = first + second;
    if first.contains(failure) {
        let place = choose|i: int| 0 <= i < first.len() && first[i] == failure;
        assert(sum[place] == failure);
    }
    if second.contains(failure) {
        let place = choose|i: int| 0 <= i < second.len() && second[i] == failure;
        assert(sum[first.len() + place] == failure);
    }
    if sum.contains(failure) {
        let place = choose|i: int| 0 <= i < sum.len() && sum[i] == failure;
        assert(if place < first.len() {
            first[place] == failure
        } else {
            second[place - first.len()] == failure
        });
    }
}

proof fn lemma_unless_contains(acceptable: bool, failure: AuditFailure, sought: AuditFailure)
    ensures
        unless(acceptable, failure).contains(sought) <==> !acceptable && sought == failure,
{
    if !acceptable {
        assert(unless(acceptable, failure)[0] == failure);
    }
}

proof fn lemma_channel_failures_contain(
    kind: ChannelKind,
    channels: Seq<Score>,
    least: Score,
    count: int,
    sought: AuditFailure,
)
    requires
        0 <= count <= channels.len(),
    ensures
        channel_failures(kind, channels, least, count).contains(sought) <==> exists|i: int|
            0 <= i < count && (#[trigger] channels[i]).below(least) && sought == match kind {
                ChannelKind::Action => AuditFailure::ActionChannel(i as usize),
                ChannelKind::Differential => AuditFailure::DifferentialChannel(i as usize),
                ChannelKind::Delta => AuditFailure::DeltaChannel(i as usize),
            },
    decreases count,
{
    if count > 0 {
        lemma_channel_failures_contain(kind, channels, least, count - 1, sought);
        let acceptable = !channels[count - 1].below(least);
        let failure = channel_failure(kind, (count - 1) as usize);
        lemma_unless_contains(acceptable, failure, sought);
        lemma_sum_contains(
            channel_failures(kind, channels, least, count - 1),
            unless(acceptable, failure),
            sought,
        );
        if !acceptable && sought == failure {
            assert(channels[count - 1].below(least));
        }
    }
}

proof fn lemma_domain_failures_contain(
    coverage: Seq<DomainCoverage>,
    excitation: Seq<Excitation>,
    limits: AuditLimits,
    count: int,
    sought: AuditFailure,
)
    requires
        0 <= count <= coverage.len(),
    ensures
        domain_failures(coverage, excitation, limits, count).contains(sought) <==> exists|i: int|
            {
                &&& 0 <= i < count
                &&& {
                    ||| !((#[trigger] coverage[i]).hover_episodes > 0
                        && coverage[i].moving_episodes > 0) && sought
                        == (AuditFailure::OneSidedCoverage {
                        domain: coverage[i].domain,
                        hover: coverage[i].hover_episodes,
                        moving: coverage[i].moving_episodes,
                    })
                    ||| !excited(excitation[i], limits) && sought == (
                    AuditFailure::WeakExcitation { domain: coverage[i].domain })
                }
            },
    decreases count,
{
    if count > 0 {
        lemma_domain_failures_contain(coverage, excitation, limits, count - 1, sought);
        let last = coverage[count - 1];
        let both = last.hover_episodes > 0 && last.moving_episodes > 0;
        let one_sided = AuditFailure::OneSidedCoverage {
            domain: last.domain,
            hover: last.hover_episodes,
            moving: last.moving_episodes,
        };
        let weak = AuditFailure::WeakExcitation { domain: last.domain };
        let enough = excited(excitation[count - 1], limits);
        let before = domain_failures(coverage, excitation, limits, count - 1);
        lemma_unless_contains(both, one_sided, sought);
        lemma_unless_contains(enough, weak, sought);
        lemma_sum_contains(before, unless(both, one_sided), sought);
        lemma_sum_contains(before + unless(both, one_sided), unless(enough, weak), sought);
    }
}

#[verifier::spinoff_prover]
proof fn lemma_failures_contain(measures: AuditMeasures, limits: AuditLimits, sought: AuditFailure)
    ensures
        measures.failures(limits).contains(sought) <==> {
            ||| unless(measures.has_references, AuditFailure::NoReferences).contains(sought)
            ||| domain_failures(
                measures.coverage@,
                measures.excitation@,
                limits,
                measures.coverage@.len() as int,
            ).contains(sought)
            ||| sought == AuditFailure::TimeSteps && measures.max_dt_error.over_key(TIME_STEP_KEY)
            ||| sought == AuditFailure::Rotations && limits.max_rotation_error.below(
                measures.max_rotation_error,
            )
            ||| sought == AuditFailure::Determinants && !measures.proper_smallest_determinant(
                limits,
            )
            ||| sought == AuditFailure::Tracking && !measures.tracks(limits)
            ||| sought == AuditFailure::GroundContact && limits.max_ground_fraction.below(
                measures.ground_fraction,
            )
            ||| sought == AuditFailure::Saturation && limits.max_saturation_fraction.below(
                measures.saturation_fraction,
            )
            ||| channel_failures(
                ChannelKind::Action,
                measures.action_std@,
                limits.min_action_std,
                measures.action_std@.len() as int,
            ).contains(sought)
            ||| channel_failures(
                ChannelKind::Differential,
                measures.action_differential_std@,
                limits.min_differential_action_std,
                measures.action_differential_std@.len() as int,
            ).contains(sought)
            ||| channel_failures(
                ChannelKind::Delta,
                measures.action_delta_std@,
                limits.min_action_delta_std,
                measures.action_delta_std@.len() as int,
            ).contains(sought)
        },
{
    let references = unless(measures.has_references, AuditFailure::NoReferences);
    let domains = domain_failures(
        measures.coverage@,
        measures.excitation@,
        limits,
        measures.coverage@.len() as int,
    );
    let timed = !measures.max_dt_error.over_key(TIME_STEP_KEY);
    let rotated = !limits.max_rotation_error.below(measures.max_rotation_error);
    let proper = measures.proper_smallest_determinant(limits);
    let followed = measures.tracks(limits);
    let aloft = !limits.max_ground_fraction.below(measures.ground_fraction);
    let unsaturated = !limits.max_saturation_fraction.below(measures.saturation_fraction);
    let action = channel_failures(
        ChannelKind::Action,
        measures.action_std@,
        limits.min_action_std,
        measures.action_std@.len() as int,
    );
    let differential = channel_failures(
        ChannelKind::Differential,
        measures.action_differential_std@,
        limits.min_differential_action_std,
        measures.action_differential_std@.len() as int,
    );
    let delta = channel_failures(
        ChannelKind::Delta,
        measures.action_delta_std@,
        limits.min_action_delta_std,
        measures.action_delta_std@.len() as int,
    );
    lemma_unless_contains(timed, AuditFailure::TimeSteps, sought);
    lemma_unless_contains(rotated, AuditFailure::Rotations, sought);
    lemma_unless_contains(proper, AuditFailure::Determinants, sought);
    lemma_unless_contains(followed, AuditFailure::Tracking, sought);
    lemma_unless_contains(aloft, AuditFailure::GroundContact, sought);
    lemma_unless_contains(unsaturated, AuditFailure::Saturation, sought);
    let one = references + domains;
    let two = one + unless(timed, AuditFailure::TimeSteps);
    let three = two + unless(rotated, AuditFailure::Rotations);
    let four = three + unless(proper, AuditFailure::Determinants);
    let five = four + unless(followed, AuditFailure::Tracking);
    let six = five + unless(aloft, AuditFailure::GroundContact);
    let seven = six + unless(unsaturated, AuditFailure::Saturation);
    let eight = seven + action;
    let nine = eight + differential;
    lemma_sum_contains(references, domains, sought);
    lemma_sum_contains(one, unless(timed, AuditFailure::TimeSteps), sought);
    lemma_sum_contains(two, unless(rotated, AuditFailure::Rotations), sought);
    lemma_sum_contains(three, unless(proper, AuditFailure::Determinants), sought);
    lemma_sum_contains(four, unless(followed, AuditFailure::Tracking), sought);
    lemma_sum_contains(five, unless(aloft, AuditFailure::GroundContact), sought);
    lemma_sum_contains(six, unless(unsaturated, AuditFailure::Saturation), sought);
    lemma_sum_contains(seven, action, sought);
    lemma_sum_contains(eight, differential, sought);
    lemma_sum_contains(nine, delta, sought);
    assert(measures.failures(limits) =~= nine + delta);
}

/// Each quantity that lies beyond its limit is among the failures, and none that does not. Only the
/// tracking error is held to its limit where it was measured.
#[verifier::spinoff_prover]
pub proof fn law_failures_lie_beyond_their_limits(measures: AuditMeasures, limits: AuditLimits)
    ensures
        measures.failures(limits).contains(AuditFailure::NoReferences)
            <==> !measures.has_references,
        measures.failures(limits).contains(AuditFailure::TimeSteps) <==> Score::Key(
            0x3eb0_c6f7_a0b5_ed8d,
        ).below(measures.max_dt_error),
        measures.failures(limits).contains(AuditFailure::Rotations)
            <==> limits.max_rotation_error.below(measures.max_rotation_error),
        measures.failures(limits).contains(AuditFailure::Determinants)
            <==> measures.determinant_min.at_most(Score::Key(0)) || limits.max_rotation_error.below(
            measures.determinant_error,
        ),
        measures.failures(limits).contains(AuditFailure::Tracking)
            <==> measures.position_tracking_rmse is Some && limits.max_tracking_rmse_m.below(
            measures.position_tracking_rmse->0,
        ),
        measures.failures(limits).contains(AuditFailure::GroundContact)
            <==> limits.max_ground_fraction.below(measures.ground_fraction),
        measures.failures(limits).contains(AuditFailure::Saturation)
            <==> limits.max_saturation_fraction.below(measures.saturation_fraction),
{
    let simple = seq![
        AuditFailure::NoReferences,
        AuditFailure::TimeSteps,
        AuditFailure::Rotations,
        AuditFailure::Determinants,
        AuditFailure::Tracking,
        AuditFailure::GroundContact,
        AuditFailure::Saturation,
    ];
    assert forall|i: int| 0 <= i < 7 implies ({
        let sought = #[trigger] simple[i];
        &&& !domain_failures(
            measures.coverage@,
            measures.excitation@,
            limits,
            measures.coverage@.len() as int,
        ).contains(sought)
        &&& !channel_failures(
            ChannelKind::Action,
            measures.action_std@,
            limits.min_action_std,
            measures.action_std@.len() as int,
        ).contains(sought)
        &&& !channel_failures(
            ChannelKind::Differential,
            measures.action_differential_std@,
            limits.min_differential_action_std,
            measures.action_differential_std@.len() as int,
        ).contains(sought)
        &&& !channel_failures(
            ChannelKind::Delta,
            measures.action_delta_std@,
            limits.min_action_delta_std,
            measures.action_delta_std@.len() as int,
        ).contains(sought)
    }) by {
        let sought = simple[i];
        lemma_domain_failures_contain(
            measures.coverage@,
            measures.excitation@,
            limits,
            measures.coverage@.len() as int,
            sought,
        );
        lemma_channel_failures_contain(
            ChannelKind::Action,
            measures.action_std@,
            limits.min_action_std,
            measures.action_std@.len() as int,
            sought,
        );
        lemma_channel_failures_contain(
            ChannelKind::Differential,
            measures.action_differential_std@,
            limits.min_differential_action_std,
            measures.action_differential_std@.len() as int,
            sought,
        );
        lemma_channel_failures_contain(
            ChannelKind::Delta,
            measures.action_delta_std@,
            limits.min_action_delta_std,
            measures.action_delta_std@.len() as int,
            sought,
        );
    }
    assert forall|i: int| 0 <= i < 7 implies (measures.failures(limits).contains(
        #[trigger] simple[i],
    ) <==> {
        ||| i == 0 && !measures.has_references
        ||| i == 1 && measures.max_dt_error.over_key(TIME_STEP_KEY)
        ||| i == 2 && limits.max_rotation_error.below(measures.max_rotation_error)
        ||| i == 3 && !measures.proper_smallest_determinant(limits)
        ||| i == 4 && !measures.tracks(limits)
        ||| i == 5 && limits.max_ground_fraction.below(measures.ground_fraction)
        ||| i == 6 && limits.max_saturation_fraction.below(measures.saturation_fraction)
    }) by {
        lemma_failures_contain(measures, limits, simple[i]);
        lemma_unless_contains(measures.has_references, AuditFailure::NoReferences, simple[i]);
    }
    assert(simple[0] == AuditFailure::NoReferences);
    assert(simple[1] == AuditFailure::TimeSteps);
    assert(simple[2] == AuditFailure::Rotations);
    assert(simple[3] == AuditFailure::Determinants);
    assert(simple[4] == AuditFailure::Tracking);
    assert(simple[5] == AuditFailure::GroundContact);
    assert(simple[6] == AuditFailure::Saturation);
}

/// Each action channel that varies too little is among the failures, by its kind and number.
#[verifier::spinoff_prover]
pub proof fn law_idle_channels_are_failures(
    measures: AuditMeasures,
    limits: AuditLimits,
    channel: int,
)
    ensures
        0 <= channel < measures.action_std@.len() && measures.action_std@[channel].below(
            limits.min_action_std,
        ) ==> measures.failures(limits).contains(AuditFailure::ActionChannel(channel as usize)),
        0 <= channel < measures.action_differential_std@.len()
            && measures.action_differential_std@[channel].below(limits.min_differential_action_std)
            ==> measures.failures(limits).contains(
            AuditFailure::DifferentialChannel(channel as usize),
        ),
        0 <= channel < measures.action_delta_std@.len() && measures.action_delta_std@[channel].below(
            limits.min_action_delta_std,
        ) ==> measures.failures(limits).contains(AuditFailure::DeltaChannel(channel as usize)),
{
    let action = AuditFailure::ActionChannel(channel as usize);
    let differential = AuditFailure::DifferentialChannel(channel as usize);
    let delta = AuditFailure::DeltaChannel(channel as usize);
    lemma_failures_contain(measures, limits, action);
    lemma_failures_contain(measures, limits, differential);
    lemma_failures_contain(measures, limits, delta);
    lemma_channel_failures_contain(
        ChannelKind::Action,
        measures.action_std@,
        limits.min_action_std,
        measures.action_std@.len() as int,
        action,
    );
    lemma_channel_failures_contain(
        ChannelKind::Differential,
        measures.action_differential_std@,
        limits.min_differential_action_std,
        measures.action_differential_std@.len() as int,
        differential,
    );
    lemma_channel_failures_contain(
        ChannelKind::Delta,
        measures.action_delta_std@,
        limits.min_action_delta_std,
        measures.action_delta_std@.len() as int,
        delta,
    );
}

/// Each domain that is only hovered or only moved in, and each one with a rotor that varies too
/// little in either respect, is among the failures.
#[verifier::spinoff_prover]
pub proof fn law_poor_domains_are_failures(
    measures: AuditMeasures,
    limits: AuditLimits,
    domain: int,
    channel: int,
)
    requires
        0 <= domain < measures.coverage@.len(),
    ensures
        ({
            let found = measures.coverage@[domain];
            let rotors = measures.excitation@[domain];
            &&& found.hover_episodes == 0 || found.moving_episodes == 0 ==> measures.failures(
                limits,
            ).contains(
                (AuditFailure::OneSidedCoverage {
                    domain: found.domain,
                    hover: found.hover_episodes,
                    moving: found.moving_episodes,
                }),
            )
            &&& 0 <= channel < rotors.differential_action_std@.len()
                && rotors.differential_action_std@[channel].below(
                limits.min_differential_action_std,
            ) ==> measures.failures(limits).contains(
                (AuditFailure::WeakExcitation { domain: found.domain }),
            )
            &&& 0 <= channel < rotors.action_delta_std@.len() && rotors.action_delta_std@[channel].below(
                limits.min_action_delta_std,
            ) ==> measures.failures(limits).contains(
                (AuditFailure::WeakExcitation { domain: found.domain }),
            )
        }),
{
    let found = measures.coverage@[domain];
    let one_sided = AuditFailure::OneSidedCoverage {
        domain: found.domain,
        hover: found.hover_episodes,
        moving: found.moving_episodes,
    };
    let weak = AuditFailure::WeakExcitation { domain: found.domain };
    let count = measures.coverage@.len() as int;
    lemma_failures_contain(measures, limits, one_sided);
    lemma_failures_contain(measures, limits, weak);
    lemma_domain_failures_contain(
        measures.coverage@,
        measures.excitation@,
        limits,
        count,
        one_sided,
    );
    lemma_domain_failures_contain(measures.coverage@, measures.excitation@, limits, count, weak);
    assert(measures.coverage@[domain] == found);
}

/// A data set passes exactly where every quantity keeps its limit, every channel varies enough, and
/// every domain is flown hovering and moving with rotors that vary enough.
#[verifier::spinoff_prover]
pub proof fn law_sound_data_passes(measures: AuditMeasures, limits: AuditLimits)
    ensures
        measures.failures(limits).len() == 0 <==> {
            &&& measures.has_references
            &&& !Score::Key(0x3eb0_c6f7_a0b5_ed8d).below(measures.max_dt_error)
            &&& !limits.max_rotation_error.below(measures.max_rotation_error)
            &&& !measures.determinant_min.at_most(Score::Key(0))
            &&& !limits.max_rotation_error.below(measures.determinant_error)
            &&& measures.position_tracking_rmse matches Some(rmse)
                ==> !limits.max_tracking_rmse_m.below(rmse)
            &&& !limits.max_ground_fraction.below(measures.ground_fraction)
            &&& !limits.max_saturation_fraction.below(measures.saturation_fraction)
            &&& forall|i: int|
                0 <= i < measures.action_std@.len() ==> !(#[trigger] measures.action_std@[i]).below(
                    limits.min_action_std,
                )
            &&& forall|i: int|
                0 <= i < measures.action_differential_std@.len() ==> !(
                #[trigger] measures.action_differential_std@[i]).below(
                    limits.min_differential_action_std,
                )
            &&& forall|i: int|
                0 <= i < measures.action_delta_std@.len() ==> !(
                #[trigger] measures.action_delta_std@[i]).below(limits.min_action_delta_std)
            &&& forall|i: int|
                0 <= i < measures.coverage@.len() ==> {
                    &&& (#[trigger] measures.coverage@[i]).hover_episodes > 0
                    &&& measures.coverage@[i].moving_episodes > 0
                    &&& forall|channel: int|
                        0 <= channel < measures.excitation@[i].differential_action_std@.len() ==> !(
                        #[trigger] measures.excitation@[i].differential_action_std@[channel]).below(
                            limits.min_differential_action_std,
                        )
                    &&& forall|channel: int|
                        0 <= channel < measures.excitation@[i].action_delta_std@.len() ==> !(
                        #[trigger] measures.excitation@[i].action_delta_std@[channel]).below(
                            limits.min_action_delta_std,
                        )
                }
        },
{
    let failures = measures.failures(limits);
    law_failures_lie_beyond_their_limits(measures, limits);
    if failures.len() == 0 {
        assert forall|i: int| 0 <= i < measures.action_std@.len() implies !(
        #[trigger] measures.action_std@[i]).below(limits.min_action_std) by {
            law_idle_channels_are_failures(measures, limits, i);
        }
        assert forall|i: int| 0 <= i < measures.action_differential_std@.len() implies !(
        #[trigger] measures.action_differential_std@[i]).below(
            limits.min_differential_action_std,
        ) by {
            law_idle_channels_are_failures(measures, limits, i);
        }
        assert forall|i: int| 0 <= i < measures.action_delta_std@.len() implies !(
        #[trigger] measures.action_delta_std@[i]).below(limits.min_action_delta_std) by {
            law_idle_channels_are_failures(measures, limits, i);
        }
        assert forall|i: int| 0 <= i < measures.coverage@.len() implies {
            &&& (#[trigger] measures.coverage@[i]).hover_episodes > 0
            &&& measures.coverage@[i].moving_episodes > 0
            &&& excited(measures.excitation@[i], limits)
        } by {
            law_passing_means_covered(measures, limits, i);
        }
    } else {
        let sought = failures[0];
        assert(failures.contains(sought));
        lemma_failures_contain(measures, limits, sought);
        lemma_unless_contains(measures.has_references, AuditFailure::NoReferences, sought);
        lemma_domain_failures_contain(
            measures.coverage@,
            measures.excitation@,
            limits,
            measures.coverage@.len() as int,
            sought,
        );
        lemma_channel_failures_contain(
            ChannelKind::Action,
            measures.action_std@,
            limits.min_action_std,
            measures.action_std@.len() as int,
            sought,
        );
        lemma_channel_failures_contain(
            ChannelKind::Differential,
            measures.action_differential_std@,
            limits.min_differential_action_std,
            measures.action_differential_std@.len() as int,
            sought,
        );
        lemma_channel_failures_contain(
            ChannelKind::Delta,
            measures.action_delta_std@,
            limits.min_action_delta_std,
            measures.action_delta_std@.len() as int,
            sought,
        );
    }
}

/// Checks that the data lie in the file that is audited.
pub fn check_data_file(path: &str) -> (result: Result<(), &'static str>)
    ensures
        match result {
            Ok(()) => same_path(path@, "data.h5"@),
            Err(message) => !same_path(path@, "data.h5"@) && message@
                == "auditor requires the canonical data.h5 artifact"@,
        },
{
    if is_same_path(path, "data.h5") {
        Ok(())
    } else {
        Err("auditor requires the canonical data.h5 artifact")
    }
}

/// Checks that the data hold as many episodes as they are declared to. The error gives both counts.
pub fn check_episode_count(declared: usize, found: usize) -> (result: Result<(), (usize, usize)>)
    ensures
        match result {
            Ok(()) => declared == found,
            Err(counts) => declared != found && counts == (declared, found),
        },
{
    if declared == found {
        Ok(())
    } else {
        Err((declared, found))
    }
}

/// Checks that an optional column is there exactly where it is declared. The error gives both.
pub fn check_declared(declared: bool, present: bool) -> (result: Result<(), (bool, bool)>)
    ensures
        match result {
            Ok(()) => declared == present,
            Err(claims) => declared != present && claims == (declared, present),
        },
{
    if declared == present {
        Ok(())
    } else {
        Err((declared, present))
    }
}

/// The shape of a column: one value for each row, or `dim` of them.
pub open spec fn column_shape(rows: usize, dim: Option<usize>) -> Seq<usize> {
    match dim {
        Some(width) => seq![rows, width],
        None => seq![rows],
    }
}

/// A column has one extent for its rows, and a second one where it holds several values in each.
pub proof fn law_columns_have_one_row_for_each_sample(rows: usize, width: usize)
    ensures
        column_shape(rows, None).len() == 1,
        column_shape(rows, None)[0] == rows,
        column_shape(rows, Some(width)).len() == 2,
        column_shape(rows, Some(width))[0] == rows,
        column_shape(rows, Some(width))[1] == width,
{
}

/// Whether a column is stored in the shape that its rows ask for.
pub fn has_column_shape(shape: &[usize], rows: usize, dim: Option<usize>) -> (answer: bool)
    ensures
        answer == (shape@ == column_shape(rows, dim)),
{
    match dim {
        Some(width) => {
            let fits = shape.len() == 2 && shape[0] == rows && shape[1] == width;
            assert(fits ==> shape@ =~= seq![rows, width]);
            fits
        },
        None => {
            let fits = shape.len() == 1 && shape[0] == rows;
            assert(fits ==> shape@ =~= seq![rows]);
            fits
        },
    }
}

/// Whether all values of a column are finite.
pub fn all_finite(values: &[Score]) -> (answer: bool)
    ensures
        answer == (forall|i: int| 0 <= i < values@.len() ==> (#[trigger] values@[i]).finite()),
{
    let total: usize = values.len();
    let mut next: usize = 0;
    while next < total
        invariant
            next <= total == values@.len(),
            forall|i: int| 0 <= i < next ==> (#[trigger] values@[i]).finite(),
        decreases total - next,
    {
        if !values[next].is_finite() {
            return false;
        }
        next = next + 1;
    }
    true
}

/// The tool ends in an error.
pub open spec fn fails(failures: usize, allow_fail: bool) -> bool {
    failures > 0 && !allow_fail
}

/// The tool fails exactly where the data set did, unless that is allowed; what passes never fails.
pub proof fn law_failed_audits_fail_the_tool(failures: usize)
    ensures
        fails(failures, false) <==> failures != 0,
        !fails(failures, true),
        !fails(0, false),
{
}

/// The verdict of the tool: an audit that failed is an error, unless that is allowed.
pub fn audit_verdict(failures: usize, allow_fail: bool) -> (result: Result<(), usize>)
    ensures
        result is Err <==> fails(failures, allow_fail),
        match result {
            Ok(()) => failures == 0 || allow_fail,
            Err(issues) => failures > 0 && !allow_fail && issues == failures,
        },
{
    if failures > 0 && !allow_fail {
        return Err(failures);
    }
    Ok(())
}

/// The settings of the command line.
#[derive(Clone, Copy, Debug)]
pub struct CheckedArgs {
    pub dataset_is_dir: bool,
    pub max_rotation_error: Score,
    pub max_tracking_rmse_m: Score,
    pub max_ground_fraction: Score,
    pub max_saturation_fraction: Score,
    pub min_action_std: Score,
    pub min_differential_action_std: Score,
    pub min_action_delta_std: Score,
}

impl CheckedArgs {
    /// The message of the first check that fails.
    pub open spec fn refusal(self) -> Option<Seq<char>> {
        if !self.dataset_is_dir {
            Some("dataset-dir is not a directory"@)
        } else if !self.max_rotation_error.positive() {
            Some("max-rotation-error must be positive"@)
        } else if !self.max_tracking_rmse_m.positive() {
            Some("max-tracking-rmse-m must be positive"@)
        } else if !self.max_ground_fraction.in_unit_range() {
            Some("max-ground-fraction must be in [0, 1]"@)
        } else if !self.max_saturation_fraction.in_unit_range() {
            Some("max-saturation-fraction must be in [0, 1]"@)
        } else if !self.min_action_std.non_negative() {
            Some("min-action-std must be non-negative"@)
        } else if !self.min_differential_action_std.non_negative() {
            Some("min-differential-action-std must be non-negative"@)
        } else if !self.min_action_delta_std.non_negative() {
            Some("min-action-delta-std must be non-negative"@)
        } else {
            None
        }
    }
}

/// Checks the settings of the command line, in order.
pub fn validate_args(args: &CheckedArgs) -> (result: Result<(), &'static str>)
    ensures
        match result {
            Ok(()) => args.refusal() is None,
            Err(message) => args.refusal() == Some(message@),
        },
{
    if !args.dataset_is_dir {
        return Err("dataset-dir is not a directory");
    }
    if !args.max_rotation_error.is_positive() {
        return Err("max-rotation-error must be positive");
    }
    if !args.max_tracking_rmse_m.is_positive() {
        return Err("max-tracking-rmse-m must be positive");
    }
    if !args.max_ground_fraction.is_in_unit_range() {
        return Err("max-ground-fraction must be in [0, 1]");
    }
    if !args.max_saturation_fraction.is_in_unit_range() {
        return Err("max-saturation-fraction must be in [0, 1]");
    }
    if !args.min_action_std.is_non_negative() {
        return Err("min-action-std must be non-negative");
    }
    if !args.min_differential_action_std.is_non_negative() {
        return Err("min-differential-action-std must be non-negative");
    }
    if !args.min_action_delta_std.is_non_negative() {
        return Err("min-action-delta-std must be non-negative");
    }
    Ok(())
}

/// Settings are accepted exactly where each of them is in its range.
pub proof fn law_accepted_settings_are_in_range(args: CheckedArgs)
    ensures
        args.refusal() is None <==> {
            &&& args.dataset_is_dir
            &&& args.max_rotation_error.positive()
            &&& args.max_tracking_rmse_m.positive()
            &&& args.max_ground_fraction.in_unit_range()
            &&& args.max_saturation_fraction.in_unit_range()
            &&& args.min_action_std.non_negative()
            &&& args.min_differential_action_std.non_negative()
            &&& args.min_action_delta_std.non_negative()
        },
{
}

} // verus!
