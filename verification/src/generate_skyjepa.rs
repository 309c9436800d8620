//! Generation of domain-randomized SkyJEPA data: which episodes hover, how they are seeded, and
//! the index columns of the data set.

use crate::order::Score;
use crate::audit_skyjepa::{block_moves, changes_domain, covers, flown_moving,
    row_fault, seen_before, starts_block, valid_sequence, DomainCoverage};
use crate::counting::{lemma_tally_positive, lemma_tally_single, tally};
use crate::rng::{draw24, draws24, mix_seed, mixed_seed};
use vstd::arithmetic::div_mod::{lemma_fundamental_div_mod, lemma_fundamental_div_mod_converse,
    lemma_mod_bound};
use vstd::prelude::*;

verus! {

/// Combined with the run's seed for the choice of hovering episodes.
pub const HOVER_MASK: u64 = 0x484f_5645_525f_434f;

/// Combined with the run's seed for the reference trajectories.
pub const TRAJECTORY_MASK: u64 = 0x0053_4b59_4a45_5041;

/// Combined with the run's seed for the initial states.
pub const INITIAL_STATE_MASK: u64 = 0x5245_434f_5645_5259;

/// Of how many visits to a domain one hovers: the visits that the run pays to each domain, but
/// at least two and at most ten.
pub open spec fn hover_period(domains: int, trajectories: int) -> int {
    let visits = trajectories / domains;
    if visits < 2 {
        2
    } else if visits > 10 {
        10
    } else {
        visits
    }
}

/// One visit in ten hovers where each domain is visited ten times or more, one of all its visits
/// where it is visited less often, and one in two where it is visited only once.
pub proof fn law_hover_period_follows_the_visits(domains: int, trajectories: int, visits: int)
    requires
        domains > 0,
        visits >= 0,
        visits * domains <= trajectories < (visits + 1) * domains,
    ensures
        2 <= hover_period(domains, trajectories) <= 10,
        2 <= visits <= 10 ==> hover_period(domains, trajectories) == visits,
        visits > 10 ==> hover_period(domains, trajectories) == 10,
        visits < 2 ==> hover_period(domains, trajectories) == 2,
{
    assert((visits + 1) * domains == visits * domains + domains) by (nonlinear_arith);
    lemma_fundamental_div_mod_converse(
        trajectories,
        domains,
        visits,
        trajectories - visits * domains,
    );
}

/// By how much the hovering visits of a domain are shifted.
pub open spec fn hover_offset(domain: int, period: int, seed: u64) -> int {
    mixed_seed(seed ^ HOVER_MASK, domain as u64) as int % period
}

/// The visit `visit` to the domain `domain` hovers.
pub open spec fn hovers(
    domain: int,
    visit: int,
    domains: int,
    trajectories: int,
    seed: u64,
) -> bool {
    let period = hover_period(domains, trajectories);
    (visit + hover_offset(domain, period, seed)) % period == 0
}

/// The episode `episode` hovers: episodes visit the domains in turn.
pub open spec fn hover_episode(episode: int, domains: int, trajectories: int, seed: u64) -> bool {
    hovers(episode % domains, episode / domains, domains, trajectories, seed)
}

/// Visit `visit` to a domain hovers exactly where it completes, with the number that the run's seed
/// draws for the domain, a multiple of the period; the episodes visit the domains in turn.
pub proof fn law_hovering_visits_are_drawn(
    domain: int,
    visit: int,
    domains: int,
    trajectories: int,
    seed: u64,
)
    requires
        0 <= domain < domains,
        0 <= visit,
    ensures
        hover_episode(visit * domains + domain, domains, trajectories, seed) <==> (visit
            + mixed_seed(seed ^ 0x484f_5645_525f_434f, domain as u64)) % hover_period(
            domains,
            trajectories,
        ) == 0,
{
    lemma_fundamental_div_mod_converse(visit * domains + domain, domains, visit, domain);
    let drawn = mixed_seed(seed ^ HOVER_MASK, domain as u64) as int;
    vstd::arithmetic::div_mod::lemma_add_mod_noop_right(
        visit,
        drawn,
        hover_period(domains, trajectories),
    );
}

/// Whether an episode hovers.
///
/// A domain's flight type changes on each visit. Every block of ten visits includes one hover and
/// nine moving references, independent of the domain count. Smaller artifacts reserve one hover
/// per domain within their available visits.
pub fn is_hover_episode(episode: usize, domains: usize, trajectories: usize, seed: u64) -> (answer:
    bool)
    requires
        domains > 0,
    ensures
        answer == hover_episode(episode as int, domains as int, trajectories as int, seed),
{
    let domain: usize = episode % domains;
    let visit: usize = episode / domains;
    let visits: usize = trajectories / domains;
    let period: usize = if visits < 2 {
        2
    } else if visits > 10 {
        10
    } else {
        visits
    };
    let offset: usize = (mix_seed(seed ^ HOVER_MASK, domain as u64) % period as u64) as usize;
    proof {
        vstd::arithmetic::div_mod::lemma_add_mod_noop(visit as int, offset as int, period as int);
        vstd::arithmetic::div_mod::lemma_small_mod(offset as nat, period as nat);
    }
    (visit % period + offset) % period == 0
}

/// In any block of visits to a domain as long as the period, exactly one visit hovers.
pub proof fn law_one_hover_per_period(
    domain: int,
    first_visit: int,
    domains: int,
    trajectories: int,
    seed: u64,
)
    requires
        domains > 0,
        trajectories >= 0,
        0 <= domain < domains,
        first_visit >= 0,
    ensures
        tally(
            hover_period(domains, trajectories),
            |k: int| hovers(domain, first_visit + k, domains, trajectories, seed),
        ) == 1,
{
    let place = lemma_hover_place(domain, first_visit, domains, trajectories, seed);
    lemma_tally_single(
        hover_period(domains, trajectories),
        |k: int| hovers(domain, first_visit + k, domains, trajectories, seed),
        place,
    );
}

/// Finds the one visit of a block that hovers.
proof fn lemma_hover_place(
    domain: int,
    first_visit: int,
    domains: int,
    trajectories: int,
    seed: u64,
) -> (place: int)
    requires
        domains > 0,
        first_visit >= 0,
    ensures
        0 <= place < hover_period(domains, trajectories),
        forall|k: int|
            0 <= k < hover_period(domains, trajectories) ==> #[trigger] hovers(
                domain,
                first_visit + k,
                domains,
                trajectories,
                seed,
            ) == (k == place),
{
    let period = hover_period(domains, trajectories);
    let base = first_visit + hover_offset(domain, period, seed);
    lemma_fundamental_div_mod(base, period);
    lemma_mod_bound(base, period);
    let quotient = base / period;
    let rest = base % period;
    vstd::arithmetic::mul::lemma_mul_is_commutative(period, quotient);
    let place = if rest == 0 {
        0
    } else {
        period - rest
    };
    assert forall|k: int| 0 <= k < period implies #[trigger] hovers(
        domain,
        first_visit + k,
        domains,
        trajectories,
        seed,
    ) == (k == place) by {
        if rest + k < period {
            lemma_fundamental_div_mod_converse(base + k, period, quotient, rest + k);
        } else {
            assert((quotient + 1) * period == quotient * period + period) by (nonlinear_arith);
            lemma_fundamental_div_mod_converse(base + k, period, quotient + 1, rest + k - period);
        }
        assert(first_visit + k + hover_offset(domain, period, seed) == base + k);
    }
    place
}

/// A run that visits each domain at least twice flies each of them both hovering and moving.
pub proof fn law_every_domain_hovers_and_moves(
    domain: int,
    domains: int,
    trajectories: int,
    seed: u64,
) -> (visits: (int, int))
    requires
        domains > 0,
        trajectories / domains >= 2,
        0 <= domain < domains,
    ensures
        0 <= visits.0 < trajectories / domains,
        0 <= visits.1 < trajectories / domains,
        hovers(domain, visits.0, domains, trajectories, seed),
        !hovers(domain, visits.1, domains, trajectories, seed),
{
    let place = lemma_hover_place(domain, 0, domains, trajectories, seed);
    let other = if place == 0 {
        1int
    } else {
        0int
    };
    assert(hovers(domain, 0 + place, domains, trajectories, seed));
    assert(!hovers(domain, 0 + other, domains, trajectories, seed));
    (place, other)
}

/// The seeds of the parameters of a domain, and of the trajectory and the initial state of an
/// episode.
pub open spec fn seeds_of(seed: u64, index: u64) -> (u64, u64, u64) {
    (
        mixed_seed(seed, index),
        mixed_seed(seed ^ TRAJECTORY_MASK, index),
        mixed_seed(seed ^ INITIAL_STATE_MASK, index),
    )
}

/// Domain, trajectory and initial state of one number have different seeds, those of different
/// numbers have different ones too, and all change with the run's seed.
#[verifier::spinoff_prover]
pub proof fn law_seeds_differ(seed: u64, other: u64, index: u64, second: u64)
    requires
        index != second,
        seed != other,
    ensures
        seeds_of(seed, index).0 != seeds_of(seed, index).1,
        seeds_of(seed, index).0 != seeds_of(seed, index).2,
        seeds_of(seed, index).1 != seeds_of(seed, index).2,
        seeds_of(seed, index).0 != seeds_of(seed, second).0,
        seeds_of(seed, index).1 != seeds_of(seed, second).1,
        seeds_of(seed, index).2 != seeds_of(seed, second).2,
        seeds_of(seed, index).0 != seeds_of(other, index).0,
        seeds_of(seed, index).1 != seeds_of(other, index).1,
        seeds_of(seed, index).2 != seeds_of(other, index).2,
{
    let turned = crate::rng::rotated_left_17(index.wrapping_mul(crate::rng::GOLDEN_GAMMA));
    assert(seed ^ turned != (seed ^ 0x0053_4b59_4a45_5041) ^ turned) by (bit_vector);
    assert(seed ^ turned != (seed ^ 0x5245_434f_5645_5259) ^ turned) by (bit_vector);
    assert((seed ^ 0x0053_4b59_4a45_5041) ^ turned != (seed ^ 0x5245_434f_5645_5259) ^ turned)
        by (bit_vector);
    assert(seed ^ turned != other ^ turned) by (bit_vector)
        requires
            seed != other,
    ;
    assert((seed ^ 0x0053_4b59_4a45_5041) ^ turned != (other ^ 0x0053_4b59_4a45_5041) ^ turned)
        by (bit_vector)
        requires
            seed != other,
    ;
    assert((seed ^ 0x5245_434f_5645_5259) ^ turned != (other ^ 0x5245_434f_5645_5259) ^ turned)
        by (bit_vector)
        requires
            seed != other,
    ;
    crate::rng::law_mixed_seeds_differ(seed, index, second);
    crate::rng::law_mixed_seeds_differ(seed ^ TRAJECTORY_MASK, index, second);
    crate::rng::law_mixed_seeds_differ(seed ^ INITIAL_STATE_MASK, index, second);
}

/// The seed of the parameters of a domain.
pub fn domain_seed(seed: u64, domain: usize) -> (result: u64)
    ensures
        result == seeds_of(seed, domain as u64).0,
        result == mixed_seed(seed, domain as u64),
{
    mix_seed(seed, domain as u64)
}

/// The seed of the reference trajectory of an episode.
pub fn trajectory_seed(seed: u64, episode: usize) -> (result: u64)
    ensures
        result == seeds_of(seed, episode as u64).1,
        result == mixed_seed(seed ^ TRAJECTORY_MASK, episode as u64),
{
    mix_seed(seed ^ TRAJECTORY_MASK, episode as u64)
}

/// The seed of the initial state of an episode.
pub fn initial_state_seed(seed: u64, episode: usize) -> (result: u64)
    ensures
        result == seeds_of(seed, episode as u64).2,
        result == mixed_seed(seed ^ INITIAL_STATE_MASK, episode as u64),
{
    mix_seed(seed ^ INITIAL_STATE_MASK, episode as u64)
}

/// The draws that make up a reference path.
#[derive(Debug)]
pub struct TrajectoryDraws {
    /// For each axis and each of its waves, one behind the other.
    pub amplitudes: Vec<u32>,
    pub phases: Vec<u32>,
    pub center: (u32, u32, u32),
    pub yaw_center: u32,
    /// A hovering path turns by nothing and draws nothing for it.
    pub yaw_amplitude: Option<u32>,
    pub yaw_period: u32,
    pub yaw_phase: u32,
}

/// Draws a reference path.
pub fn sample_trajectory(seed: u64, hover: bool) -> (draws: TrajectoryDraws)
    ensures
        draws.amplitudes@.len() == 9,
        draws.phases@.len() == 9,
        forall|i: int| 0 <= i < 9 ==> #[trigger] draws.amplitudes@[i] == draw24(seed, 2 * i as nat),
        forall|i: int|
            0 <= i < 9 ==> #[trigger] draws.phases@[i] == draw24(seed, 2 * i as nat + 1),
        draws.center == (draw24(seed, 18), draw24(seed, 19), draw24(seed, 20)),
        draws.yaw_center == draw24(seed, 21),
        draws.yaw_amplitude == if hover {
            None
        } else {
            Some(draw24(seed, 22))
        },
        draws.yaw_period == draw24(
            seed,
            if hover {
                22
            } else {
                23
            },
        ),
        draws.yaw_phase == draw24(
            seed,
            if hover {
                23
            } else {
                24
            },
        ),
{
    let all = draws24(seed, 25);
    let mut amplitudes: Vec<u32> = Vec::new();
    let mut phases: Vec<u32> = Vec::new();
    let mut wave: usize = 0;
    while wave < 9
        invariant
            wave <= 9,
            amplitudes@.len() == wave,
            phases@.len() == wave,
            all@.len() == 25,
            forall|i: int| 0 <= i < 25 ==> #[trigger] all@[i] == draw24(seed, i as nat),
            forall|i: int|
                0 <= i < wave ==> #[trigger] amplitudes@[i] == draw24(seed, 2 * i as nat),
            forall|i: int|
                0 <= i < wave ==> #[trigger] phases@[i] == draw24(seed, 2 * i as nat + 1),
        decreases 9 - wave,
    {
        amplitudes.push(all[2 * wave]);
        phases.push(all[2 * wave + 1]);
        wave = wave + 1;
    }
    let center = (all[18], all[19], all[20]);
    let yaw_center: u32 = all[21];
    if hover {
        TrajectoryDraws {
            amplitudes,
            phases,
            center,
            yaw_center,
            yaw_amplitude: None,
            yaw_period: all[22],
            yaw_phase: all[23],
        }
    } else {
        TrajectoryDraws {
            amplitudes,
            phases,
            center,
            yaw_center,
            yaw_amplitude: Some(all[22]),
            yaw_period: all[23],
            yaw_phase: all[24],
        }
    }
}

/// The samples of an episode: one before each transition, and one behind the last.
pub fn samples_of(transitions: usize) -> (samples: usize)
    requires
        transitions < usize::MAX,
    ensures
        samples == transitions + 1,
{
    transitions + 1
}

/// The plant's steps between sample `step` and the next.
pub open spec fn steps_behind(step: int, transitions: int, substeps: int) -> int {
    if step < transitions {
        substeps
    } else {
        0
    }
}

/// The plant's steps before sample `sample`.
pub open spec fn steps_before(sample: int, transitions: int, substeps: int) -> int
    decreases sample,
{
    if sample <= 0 {
        0
    } else {
        steps_before(sample - 1, transitions, substeps) + steps_behind(
            sample - 1,
            transitions,
            substeps,
        )
    }
}

/// The samples of an episode lie the same number of plant steps apart, and none are taken behind the
/// last of them.
pub proof fn law_samples_lie_equally_far_apart(sample: int, transitions: int, substeps: int)
    requires
        0 <= sample <= transitions,
    ensures
        steps_before(sample, transitions, substeps) == sample * substeps,
        steps_before(transitions + 1, transitions, substeps) == steps_before(
            transitions,
            transitions,
            substeps,
        ),
    decreases sample,
{
    if sample > 0 {
        law_samples_lie_equally_far_apart(sample - 1, transitions, substeps);
        assert(sample * substeps == (sample - 1) * substeps + substeps) by (nonlinear_arith);
    } else {
        assert(sample * substeps == 0) by (nonlinear_arith)
            requires
                sample == 0,
        ;
    }
}

/// The plant's steps behind a sample: none behind the last one.
pub fn plant_steps(step: usize, transitions: usize, substeps: usize) -> (count: usize)
    ensures
        count == steps_behind(step as int, transitions as int, substeps as int),
        count == if step < transitions {
            substeps
        } else {
            0
        },
{
    if step < transitions {
        substeps
    } else {
        0
    }
}

/// The index columns of a data set.
#[derive(Debug)]
pub struct IndexColumns {
    pub episode_idx: Vec<i64>,
    pub step_idx: Vec<i64>,
    pub domain_idx: Vec<i64>,
}

impl IndexColumns {
    /// The columns of the first `rows` rows of a data set whose episodes have `samples` rows each
    /// and visit `domains` domains in turn.
    pub open spec fn lists(self, rows: int, samples: int, domains: int) -> bool {
        &&& self.episode_idx@.len() == rows
        &&& self.step_idx@.len() == rows
        &&& self.domain_idx@.len() == rows
        &&& forall|row: int|
            0 <= row < rows ==> {
                &&& #[trigger] self.episode_idx@[row] == row / samples
                &&& self.step_idx@[row] == row % samples
                &&& self.domain_idx@[row] == (row / samples) % domains
            }
    }
}

proof fn lemma_row_appended(
    before: IndexColumns,
    after: IndexColumns,
    episode: int,
    step: int,
    samples: int,
    domains: int,
)
    requires
        0 <= episode,
        0 <= step < samples,
        domains > 0,
        before.lists(episode * samples + step, samples, domains),
        after.episode_idx@.len() == episode * samples + step + 1,
        after.step_idx@.len() == episode * samples + step + 1,
        after.domain_idx@.len() == episode * samples + step + 1,
        after.episode_idx@.last() == episode,
        after.step_idx@.last() == step,
        after.domain_idx@.last() == episode % domains,
        after.episode_idx@.drop_last() == before.episode_idx@,
        after.step_idx@.drop_last() == before.step_idx@,
        after.domain_idx@.drop_last() == before.domain_idx@,
    ensures
        after.lists(episode * samples + step + 1, samples, domains),
{
    let last = episode * samples + step;
    lemma_fundamental_div_mod_converse(last, samples, episode, step);
    assert forall|row: int| 0 <= row < last + 1 implies {
        &&& #[trigger] after.episode_idx@[row] == row / samples
        &&& after.step_idx@[row] == row % samples
        &&& after.domain_idx@[row] == (row / samples) % domains
    } by {
        if row < last {
            assert(after.episode_idx@[row] == before.episode_idx@[row]);
            assert(after.step_idx@[row] == after.step_idx@.drop_last()[row]);
            assert(after.domain_idx@[row] == after.domain_idx@.drop_last()[row]);
        }
    }
}

fn append_episode(columns: &mut IndexColumns, episode: usize, samples: usize, domains: usize)
    requires
        samples > 0,
        domains > 0,
        episode <= i64::MAX,
        samples <= i64::MAX,
        old(columns).lists(episode * samples, samples as int, domains as int),
    ensures
        final(columns).lists((episode + 1) * samples, samples as int, domains as int),
{
    let mut step: usize = 0;
    assert((episode + 1) * samples == episode * samples + samples) by (nonlinear_arith);
    while step < samples
        invariant
            samples > 0,
            domains > 0,
            step <= samples,
            episode <= i64::MAX,
            samples <= i64::MAX,
            columns.lists(episode * samples + step, samples as int, domains as int),
        decreases samples - step,
    {
        let ghost before = *columns;
        proof {
            vstd::arithmetic::div_mod::lemma_mod_decreases(episode as nat, domains as nat);
        }
        columns.episode_idx.push(episode as i64);
        columns.step_idx.push(step as i64);
        columns.domain_idx.push((episode % domains) as i64);
        proof {
            assert(columns.episode_idx@.drop_last() =~= before.episode_idx@);
            assert(columns.step_idx@.drop_last() =~= before.step_idx@);
            assert(columns.domain_idx@.drop_last() =~= before.domain_idx@);
            lemma_row_appended(
                before,
                *columns,
                episode as int,
                step as int,
                samples as int,
                domains as int,
            );
        }
        step = step + 1;
    }
}

/// Builds the index columns of a data set: the episodes one behind the other, each with its steps
/// from zero and with the domain that it visits.
pub fn index_columns(trajectories: usize, samples: usize, domains: usize) -> (columns: IndexColumns)
    requires
        samples > 0,
        domains > 0,
        trajectories <= i64::MAX,
        samples <= i64::MAX,
    ensures
        columns.lists(trajectories * samples, samples as int, domains as int),
{
    let mut columns = IndexColumns {
        episode_idx: Vec::new(),
        step_idx: Vec::new(),
        domain_idx: Vec::new(),
    };
    let mut episode: usize = 0;
    assert(0 * samples == 0) by (nonlinear_arith);
    while episode < trajectories
        invariant
            samples > 0,
            domains > 0,
            episode <= trajectories <= i64::MAX,
            samples <= i64::MAX,
            columns.lists(episode * samples, samples as int, domains as int),
        decreases trajectories - episode,
    {
        append_episode(&mut columns, episode, samples, domains);
        episode = episode + 1;
    }
    columns
}

proof fn lemma_row_place(row: int, samples: int)
    requires
        samples > 0,
        row >= 0,
    ensures
        row == (row / samples) * samples + row % samples,
        0 <= row % samples < samples,
        0 <= row / samples <= row,
{
    lemma_fundamental_div_mod(row, samples);
    lemma_mod_bound(row, samples);
    vstd::arithmetic::mul::lemma_mul_is_commutative(samples, row / samples);
    assert(0 <= row / samples <= row) by (nonlinear_arith)
        requires
            samples > 0,
            row >= 0,
    ;
}

proof fn lemma_rows_of_episode(columns: IndexColumns, rows: int, samples: int, domains: int, row: int)
    requires
        samples > 0,
        domains > 0,
        columns.lists(rows, samples, domains),
        0 <= row < rows,
    ensures
        starts_block(columns.episode_idx@, row) <==> row % samples == 0,
        row % samples == 0 ==> !seen_before(columns.episode_idx@, row),
        row % samples != 0 ==> columns.step_idx@[row] == columns.step_idx@[row - 1] + 1
            && columns.domain_idx@[row] == columns.domain_idx@[row - 1],
        columns.episode_idx@[row] >= 0,
{
    let episodes = columns.episode_idx@;
    lemma_row_place(row, samples);
    let episode = row / samples;
    if row % samples != 0 {
        lemma_fundamental_div_mod_converse(row - 1, samples, episode, row % samples - 1);
        assert(episodes[row - 1] == episode);
    } else {
        assert forall|earlier: int| 0 <= earlier < row implies episodes[earlier]
            != episodes[row] by {
            lemma_row_place(earlier, samples);
            if earlier / samples == episode {
                assert(earlier >= row);
            }
            assert(episodes[earlier] == earlier / samples);
        }
        if row > 0 {
            assert(episodes[row - 1] != episodes[row]);
        }
    }
}

proof fn lemma_episode_set(columns: IndexColumns, trajectories: int, samples: int, domains: int)
    requires
        samples > 0,
        domains > 0,
        0 <= trajectories <= i64::MAX,
        columns.lists(trajectories * samples, samples, domains),
    ensures
        columns.episode_idx@.to_set().len() == trajectories,
{
    let episodes = columns.episode_idx@;
    let numbers = vstd::set_lib::set_int_range(0, trajectories);
    vstd::set_lib::lemma_int_range(0, trajectories);
    let widen = |episode: i64| episode as int;
    assert forall|number: int| numbers.contains(number) <==> #[trigger] episodes.to_set().map(
        widen,
    ).contains(number) by {
        if numbers.contains(number) {
            let row = number * samples;
            assert(0 <= row < trajectories * samples) by (nonlinear_arith)
                requires
                    0 <= number < trajectories,
                    samples > 0,
                    row == number * samples,
            ;
            lemma_fundamental_div_mod_converse(row, samples, number, 0);
            assert(episodes[row] == number);
            assert(episodes.to_set().contains(number as i64));
            assert(widen(number as i64) == number);
        }
        if episodes.to_set().map(widen).contains(number) {
            let episode = choose|episode: i64|
                episodes.to_set().contains(episode) && widen(episode) == number;
            let row = choose|row: int| 0 <= row < episodes.len() && episodes[row] == episode;
            lemma_row_place(row, samples);
            assert(row / samples < trajectories) by (nonlinear_arith)
                requires
                    row == (row / samples) * samples + row % samples,
                    0 <= row % samples,
                    row < trajectories * samples,
                    samples > 0,
            ;
        }
    }
    assert(episodes.to_set().map(widen) =~= numbers);
    vstd::set_lib::lemma_map_size(episodes.to_set(), numbers, widen);
}

/// The index columns of a generated data set are valid, they hold each episode once, and no
/// episode changes its domain.
pub proof fn law_generated_index_is_valid(
    columns: IndexColumns,
    trajectories: int,
    samples: int,
    domains: int,
)
    requires
        samples > 0,
        domains > 0,
        0 <= trajectories <= i64::MAX,
        columns.lists(trajectories * samples, samples, domains),
    ensures
        valid_sequence(columns.episode_idx@, columns.step_idx@),
        columns.episode_idx@.to_set().len() == trajectories,
        forall|row: int|
            0 <= row < columns.episode_idx@.len() ==> !(#[trigger] changes_domain(
                columns.episode_idx@,
                columns.domain_idx@,
                row,
            )),
{
    let rows = trajectories * samples;
    assert forall|row: int| 0 <= row < rows implies #[trigger] row_fault(
        columns.episode_idx@,
        columns.step_idx@,
        row,
    ) is None by {
        lemma_rows_of_episode(columns, rows, samples, domains, row);
        assert(columns.episode_idx@[row] == row / samples);
    }
    assert forall|row: int| 0 <= row < rows implies !(#[trigger] changes_domain(
        columns.episode_idx@,
        columns.domain_idx@,
        row,
    )) by {
        lemma_rows_of_episode(columns, rows, samples, domains, row);
    }
    lemma_episode_set(columns, trajectories, samples, domains);
}

/// A data set begins with the first step of the first episode in the first domain; one episode later
/// the same step follows of the next episode in the next domain, or in the first behind the last.
#[verifier::spinoff_prover]
pub proof fn law_generated_episodes_visit_the_domains_in_turn(
    columns: IndexColumns,
    rows: int,
    samples: int,
    domains: int,
    row: int,
)
    requires
        samples > 0,
        domains > 0,
        columns.lists(rows, samples, domains),
        0 <= row,
        row + samples < rows,
    ensures
        columns.episode_idx@[0] == 0,
        columns.step_idx@[0] == 0,
        columns.domain_idx@[0] == 0,
        columns.episode_idx@[row + samples] == columns.episode_idx@[row] + 1,
        columns.step_idx@[row + samples] == columns.step_idx@[row],
        0 <= columns.domain_idx@[row] < domains,
        columns.domain_idx@[row] + 1 < domains ==> columns.domain_idx@[row + samples]
            == columns.domain_idx@[row] + 1,
        columns.domain_idx@[row] + 1 == domains ==> columns.domain_idx@[row + samples] == 0,
{
    lemma_row_place(row, samples);
    let episode = row / samples;
    let step = row % samples;
    assert((episode + 1) * samples == episode * samples + samples) by (nonlinear_arith);
    lemma_fundamental_div_mod_converse(row + samples, samples, episode + 1, step);
    lemma_fundamental_div_mod_converse(0, samples, 0, 0);
    lemma_fundamental_div_mod_converse(0, domains, 0, 0);
    assert(columns.episode_idx@[0] == 0int / samples);
    assert(columns.episode_idx@[row] == episode);
    assert(columns.episode_idx@[row + samples] == episode + 1);
    lemma_fundamental_div_mod(episode, domains);
    lemma_mod_bound(episode, domains);
    let turn = episode / domains;
    let domain = episode % domains;
    assert(domains * turn == turn * domains) by (nonlinear_arith);
    assert((turn + 1) * domains == turn * domains + domains) by (nonlinear_arith);
    if domain + 1 < domains {
        lemma_fundamental_div_mod_converse(episode + 1, domains, turn, domain + 1);
    } else {
        lemma_fundamental_div_mod_converse(episode + 1, domains, turn + 1, 0);
    }
}

/// A generated data set in which exactly the hovering episodes stay in place covers every domain
/// with both kinds of flight, as the audit asks.
pub proof fn law_generated_data_covers_every_domain(
    columns: IndexColumns,
    trajectories: int,
    samples: int,
    domains: int,
    seed: u64,
    displaced: Seq<bool>,
    coverage: DomainCoverage,
    domain: int,
)
    requires
        samples > 0,
        domains > 0,
        0 <= trajectories <= i64::MAX,
        trajectories / domains >= 2,
        0 <= domain < domains,
        columns.lists(trajectories * samples, samples, domains),
        forall|episode: int|
            0 <= episode < trajectories ==> block_moves(
                columns.episode_idx@,
                displaced,
                episode * samples,
            ) == !(#[trigger] hover_episode(episode, domains, trajectories, seed)),
        covers(
            coverage,
            columns.episode_idx@,
            columns.domain_idx@,
            Some(displaced),
            domain,
            trajectories * samples,
        ),
    ensures
        coverage.hover_episodes > 0,
        coverage.moving_episodes > 0,
{
    let (hover_visit, moving_visit) = law_every_domain_hovers_and_moves(
        domain,
        domains,
        trajectories,
        seed,
    );
    lemma_visit_counts(columns, trajectories, samples, domains, seed, displaced, domain, hover_visit);
    lemma_visit_counts(
        columns,
        trajectories,
        samples,
        domains,
        seed,
        displaced,
        domain,
        moving_visit,
    );
}

proof fn lemma_visit_counts(
    columns: IndexColumns,
    trajectories: int,
    samples: int,
    domains: int,
    seed: u64,
    displaced: Seq<bool>,
    domain: int,
    visit: int,
)
    requires
        samples > 0,
        domains > 0,
        0 <= trajectories <= i64::MAX,
        0 <= domain < domains,
        0 <= visit < trajectories / domains,
        columns.lists(trajectories * samples, samples, domains),
        forall|episode: int|
            0 <= episode < trajectories ==> block_moves(
                columns.episode_idx@,
                displaced,
                episode * samples,
            ) == !(#[trigger] hover_episode(episode, domains, trajectories, seed)),
    ensures
        tally(
            trajectories * samples,
            flown_moving(
                columns.episode_idx@,
                columns.domain_idx@,
                Some(displaced),
                domain,
                !hovers(domain, visit, domains, trajectories, seed),
            ),
        ) > 0,
{
    let episode = visit * domains + domain;
    lemma_row_place(trajectories, domains);
    let visits = trajectories / domains;
    assert(0 <= episode < trajectories) by (nonlinear_arith)
        requires
            episode == visit * domains + domain,
            0 <= visit < visits,
            0 <= domain < domains,
            trajectories == visits * domains + trajectories % domains,
            0 <= trajectories % domains,
    ;
    lemma_fundamental_div_mod_converse(episode, domains, visit, domain);
    assert(hover_episode(episode, domains, trajectories, seed) == hovers(
        domain,
        visit,
        domains,
        trajectories,
        seed,
    ));
    let row = episode * samples;
    assert(0 <= row < trajectories * samples) by (nonlinear_arith)
        requires
            0 <= episode < trajectories,
            samples > 0,
            row == episode * samples,
    ;
    lemma_fundamental_div_mod_converse(row, samples, episode, 0);
    lemma_rows_of_episode(columns, trajectories * samples, samples, domains, row);
    assert(columns.episode_idx@[row] == episode);
    lemma_tally_positive(
        trajectories * samples,
        flown_moving(
            columns.episode_idx@,
            columns.domain_idx@,
            Some(displaced),
            domain,
            !hovers(domain, visit, domains, trajectories, seed),
        ),
        row,
    );
}

/// The settings of the command line; `transitions` is the number of samples that the duration
/// holds, rounded.
#[derive(Clone, Copy, Debug)]
pub struct CheckedArgs {
    pub domains: usize,
    pub trajectories: usize,
    pub duration_seconds: Score,
    pub sample_rate_hz: usize,
    pub simulation_rate_hz: usize,
    pub transitions: usize,
}

impl CheckedArgs {
    /// The message of the first check that fails.
    pub open spec fn refusal(self) -> Option<Seq<char>> {
        if self.domains == 0 {
            Some("domains must be positive"@)
        } else if self.trajectories as int / (self.domains as int) < 2 {
            Some("coverage requires at least two trajectories per domain"@)
        } else if self.trajectories < 3 {
            Some("trajectories must be at least three"@)
        } else if !self.duration_seconds.positive() {
            Some("duration_seconds must be positive"@)
        } else if self.sample_rate_hz == 0 {
            Some("sample_rate_hz must be positive"@)
        } else if self.simulation_rate_hz < self.sample_rate_hz || self.simulation_rate_hz as int
            % (self.sample_rate_hz as int) != 0 {
            Some("simulation_rate_hz must be an integer multiple of sample_rate_hz"@)
        } else if self.transitions < 30 {
            Some("trajectory must contain at least 30 transitions for H=10, T=20"@)
        } else {
            None
        }
    }
}

/// Checks the settings of the command line, in order.
pub fn validate_args(args: &CheckedArgs) -> (result: Result<(), &'static str>)
    ensures
        match result {
            Ok(()) => args.refusal() is None,
            Err(message) => args.refusal() == Some(message@),
        },
{
    if args.domains == 0 {
        return Err("domains must be positive");
    }
    if args.trajectories / args.domains < 2 {
        return Err("coverage requires at least two trajectories per domain");
    }
    if args.trajectories < 3 {
        return Err("trajectories must be at least three");
    }
    if !args.duration_seconds.is_positive() {
        return Err("duration_seconds must be positive");
    }
    if args.sample_rate_hz == 0 {
        return Err("sample_rate_hz must be positive");
    }
    if args.simulation_rate_hz < args.sample_rate_hz || args.simulation_rate_hz
        % args.sample_rate_hz != 0 {
        return Err("simulation_rate_hz must be an integer multiple of sample_rate_hz");
    }
    if args.transitions < 30 {
        return Err("trajectory must contain at least 30 transitions for H=10, T=20");
    }
    Ok(())
}

/// Settings are accepted exactly where each of them is in its range, every domain gets two
/// trajectories or more, and the samples are a whole number of simulation steps apart.
#[verifier::spinoff_prover]
pub proof fn law_accepted_settings_are_in_range(args: CheckedArgs)
    ensures
        args.refusal() is None <==> {
            &&& args.domains > 0
            &&& args.trajectories >= 2 * args.domains
            &&& args.trajectories >= 3
            &&& args.duration_seconds.positive()
            &&& args.sample_rate_hz > 0
            &&& args.simulation_rate_hz >= args.sample_rate_hz
            &&& exists|steps: int| #[trigger]
                (steps * args.sample_rate_hz) == args.simulation_rate_hz
            &&& args.transitions >= 30
        },
{
    let domains = args.domains as int;
    let trajectories = args.trajectories as int;
    if domains > 0 {
        lemma_fundamental_div_mod(trajectories, domains);
        lemma_mod_bound(trajectories, domains);
        let visits = trajectories / domains;
        assert(visits < 2 ==> domains * visits + domains <= 2 * domains) by (nonlinear_arith)
            requires
                domains > 0,
        ;
        assert(visits >= 2 ==> domains * visits >= 2 * domains) by (nonlinear_arith)
            requires
                domains > 0,
        ;
    }
    let rate = args.sample_rate_hz as int;
    let simulated = args.simulation_rate_hz as int;
    if rate > 0 {
        lemma_fundamental_div_mod(simulated, rate);
        assert(rate * (simulated / rate) == (simulated / rate) * rate) by (nonlinear_arith);
        if simulated % rate == 0 {
            assert((simulated / rate) * args.sample_rate_hz == args.simulation_rate_hz);
        }
        assert forall|steps: int| #[trigger]
            (steps * args.sample_rate_hz) == args.simulation_rate_hz implies simulated % rate
            == 0 by {
            lemma_fundamental_div_mod_converse(simulated, rate, steps, 0);
        }
    }
}

/// How many simulation steps lie between two samples.
pub fn substeps(simulation_rate_hz: usize, sample_rate_hz: usize) -> (steps: usize)
    requires
        sample_rate_hz > 0,
    ensures
        steps == simulation_rate_hz as int / (sample_rate_hz as int),
        steps * sample_rate_hz <= simulation_rate_hz < (steps + 1) * sample_rate_hz,
{
    let steps: usize = simulation_rate_hz / sample_rate_hz;
    proof {
        let rate = sample_rate_hz as int;
        lemma_fundamental_div_mod(simulation_rate_hz as int, rate);
        lemma_mod_bound(simulation_rate_hz as int, rate);
        assert(rate * steps == steps * rate) by (nonlinear_arith);
        assert((steps + 1) * rate == steps * rate + rate) by (nonlinear_arith);
    }
    steps
}

/// A column of `values` numbers fills `rows` rows of `dim` numbers each.
pub fn column_fits(values: usize, rows: usize, dim: usize) -> (answer: bool)
    requires
        rows * dim <= usize::MAX,
    ensures
        answer == (values == rows * dim),
{
    values == rows * dim
}

} // verus!
