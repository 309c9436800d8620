//! Speed of a fixed batch of rollouts.

use crate::order::Score;
use crate::paths::{join, joined, stored, stored_dir};
use crate::ranking::{sorted_order, stands_at};
use crate::rng::{xor_shift, XorShift64, GOLDEN_GAMMA};
use crate::rollout_shapes::ACTION_DIM;
use vstd::prelude::*;

verus! {

/// The settings of the command line.
#[derive(Clone, Copy, PartialEq, Eq, Structural, Debug)]
pub struct CheckedArgs {
    pub history_steps: usize,
    pub horizon: usize,
    pub samples: usize,
    pub iterations: usize,
    pub action_scale: Score,
}

impl CheckedArgs {
    /// The message of the first check that fails.
    pub open spec fn refusal(self) -> Option<Seq<char>> {
        if self.history_steps < 2 {
            Some("--history-steps must be at least two"@)
        } else if self.horizon == 0 {
            Some("--horizon must be greater than zero"@)
        } else if self.samples == 0 {
            Some("--samples must be greater than zero"@)
        } else if self.iterations == 0 {
            Some("--iterations must be greater than zero"@)
        } else if !self.action_scale.from_key(0) {
            Some("--action-scale must be zero or greater"@)
        } else {
            None
        }
    }
}

/// Checks the settings of the command line, in order.
pub fn validate_args(args: &CheckedArgs) -> (result: Result<(), &'static str>)
    ensures
        match result {
            Ok(()) => args.refusal() is None,
            Err(message) => args.refusal() == Some(message@),
        },
{
    if args.history_steps < 2 {
        return Err("--history-steps must be at least two");
    }
    if args.horizon == 0 {
        return Err("--horizon must be greater than zero");
    }
    if args.samples == 0 {
        return Err("--samples must be greater than zero");
    }
    if args.iterations == 0 {
        return Err("--iterations must be greater than zero");
    }
    if !args.action_scale.is_from_key(0) {
        return Err("--action-scale must be zero or greater");
    }
    Ok(())
}

/// The state of the noise after `count` steps of its generator.
pub open spec fn noise_state(count: nat) -> u64
    decreases count,
{
    if count == 0 {
        GOLDEN_GAMMA
    } else {
        xor_shift(noise_state((count - 1) as nat))
    }
}

/// Where one component of one action comes from.
#[derive(Clone, Copy, PartialEq, Eq, Structural, Debug)]
pub enum Perturbation {
    /// It is that of the baseline.
    Baseline,
    /// It is perturbed by the noise of these 24 bits.
    Noise(u32),
}

/// The perturbation at a place of the batch, which lists the samples, in each of them the steps, and
/// in each of those the components. The first sample is the baseline; the noise goes on under it.
pub open spec fn perturbation_at(place: int, horizon: int) -> Perturbation {
    if place < horizon * ACTION_DIM {
        Perturbation::Baseline
    } else {
        Perturbation::Noise((noise_state((place + 1) as nat) >> 40) as u32)
    }
}

/// Lists where the components of all actions of the batch come from.
pub fn deterministic_action_batch(samples: usize, horizon: usize) -> (batch: Vec<Perturbation>)
    requires
        samples * horizon * ACTION_DIM <= usize::MAX,
    ensures
        batch@.len() == samples * horizon * ACTION_DIM,
        forall|place: int|
            0 <= place < batch@.len() ==> #[trigger] batch@[place] == perturbation_at(
                place,
                horizon as int,
            ),
{
    let mut rng = XorShift64::new(GOLDEN_GAMMA);
    let mut batch: Vec<Perturbation> = Vec::new();
    let mut sample: usize = 0;
    while sample < samples
        invariant
            sample <= samples,
            samples * horizon * ACTION_DIM <= usize::MAX,
            rng.well_formed(),
            rng.state == noise_state(batch@.len()),
            batch@.len() == sample * horizon * ACTION_DIM,
            forall|place: int|
                0 <= place < batch@.len() ==> #[trigger] batch@[place] == perturbation_at(
                    place,
                    horizon as int,
                ),
        decreases samples - sample,
    {
        let mut step: usize = 0;
        while step < horizon
            invariant
                sample < samples,
                step <= horizon,
                rng.well_formed(),
                rng.state == noise_state(batch@.len()),
                batch@.len() == (sample * horizon + step) * ACTION_DIM,
                forall|place: int|
                    0 <= place < batch@.len() ==> #[trigger] batch@[place] == perturbation_at(
                        place,
                        horizon as int,
                    ),
            decreases horizon - step,
        {
            let mut dim: usize = 0;
            while dim < ACTION_DIM
                invariant
                    sample < samples,
                    step < horizon,
                    dim <= ACTION_DIM,
                    rng.well_formed(),
                    rng.state == noise_state(batch@.len()),
                    batch@.len() == (sample * horizon + step) * ACTION_DIM + dim,
                    forall|place: int|
                        0 <= place < batch@.len() ==> #[trigger] batch@[place] == perturbation_at(
                            place,
                            horizon as int,
                        ),
                decreases ACTION_DIM - dim,
            {
                let bits: u32 = rng.next_bits24();
                proof {
                    let place = (sample * horizon + step) * ACTION_DIM + dim;
                    assert(place < horizon * ACTION_DIM <==> sample == 0) by (nonlinear_arith)
                        requires
                            place == (sample * horizon + step) * ACTION_DIM + dim,
                            0 <= sample,
                            0 <= step < horizon,
                            0 <= dim < ACTION_DIM,
                            ACTION_DIM == 4,
                    ;
                }
                if sample == 0 {
                    batch.push(Perturbation::Baseline);
                } else {
                    batch.push(Perturbation::Noise(bits));
                }
                dim = dim + 1;
            }
            step = step + 1;
        }
        assert((sample + 1) * horizon == sample * horizon + horizon) by (nonlinear_arith);
        sample = sample + 1;
    }
    batch
}

/// The batch is the same in every run, and a longer one begins with the shorter one.
pub proof fn law_batch_is_fixed(first: Seq<Perturbation>, second: Seq<Perturbation>, horizon: int)
    requires
        first.len() <= second.len(),
        forall|place: int|
            0 <= place < first.len() ==> #[trigger] first[place] == perturbation_at(place, horizon),
        forall|place: int|
            0 <= place < second.len() ==> #[trigger] second[place] == perturbation_at(
                place,
                horizon,
            ),
    ensures
        second.take(first.len() as int) == first,
{
    assert(second.take(first.len() as int) =~= first);
}

/// The measurements that stand for a list of them: their places in the list.
#[derive(Clone, Copy, PartialEq, Eq, Structural, Debug)]
pub struct TimingPicks {
    pub min: usize,
    pub p50: usize,
    pub p90: usize,
    pub max: usize,
}

/// The place of `rank` in a list of `count`, or the last one.
pub open spec fn clamped(rank: int, count: int) -> int {
    if rank < count {
        rank
    } else {
        count - 1
    }
}

/// Picks the least, the middle, the nine tenths and the largest measurement, given the measurements
/// as keys that keep their order and the ranks of the two in between.
pub fn timing_picks(keys: &Vec<i128>, p50_rank: usize, p90_rank: usize) -> (picks: TimingPicks)
    requires
        keys@.len() > 0,
    ensures
        picks.min < keys@.len(),
        picks.p50 < keys@.len(),
        picks.p90 < keys@.len(),
        picks.max < keys@.len(),
        stands_at(keys@, 0, picks.min),
        stands_at(keys@, clamped(p50_rank as int, keys@.len() as int), picks.p50),
        stands_at(keys@, clamped(p90_rank as int, keys@.len() as int), picks.p90),
        stands_at(keys@, keys@.len() - 1, picks.max),
{
    let order = sorted_order(keys);
    let last: usize = order.len() - 1;
    let p50: usize = if p50_rank < last {
        p50_rank
    } else {
        last
    };
    let p90: usize = if p90_rank < last {
        p90_rank
    } else {
        last
    };
    TimingPicks { min: order[0], p50: order[p50], p90: order[p90], max: order[last] }
}

/// The data set that is used by default.
pub fn default_dataset_dir(home: Option<&str>) -> (path: String)
    ensures
        path@ == stored(home, "le-wm-nv-data"@, "drone-racing-autonomous-100hz"@),
{
    stored_dir(home, "le-wm-nv-data", "drone-racing-autonomous-100hz")
}

/// The run whose model is used by default.
pub fn default_run_dir(home: Option<&str>) -> (path: String)
    ensures
        path@ == stored(home, "le-wm-nv-runs"@, "drone-state-lewm-all-data-20260612-235255"@),
{
    stored_dir(home, "le-wm-nv-runs", "drone-state-lewm-all-data-20260612-235255")
}

/// The weights that are used by default.
pub fn default_weights(home: Option<&str>) -> (path: String)
    ensures
        path@ == joined(
            stored(home, "le-wm-nv-runs"@, "drone-state-lewm-all-data-20260612-235255"@),
            "final.safetensors"@,
        ),
{
    join(default_run_dir(home).as_str(), "final.safetensors")
}

/// The model's configuration that is read by default.
pub fn default_config(home: Option<&str>) -> (path: String)
    ensures
        path@ == joined(
            stored(home, "le-wm-nv-runs"@, "drone-state-lewm-all-data-20260612-235255"@),
            "model-config.json"@,
        ),
{
    join(default_run_dir(home).as_str(), "model-config.json")
}

/// The file that the report is written to by default.
pub fn default_output() -> (path: String)
    ensures
        path@ == joined(joined("target"@, "bench"@), "drone-lewm-rollout-h40-s528.json"@),
{
    join(join("target", "bench").as_str(), "drone-lewm-rollout-h40-s528.json")
}

/// Settings are accepted exactly where each of them is in its range.
pub proof fn law_accepted_settings_are_in_range(args: CheckedArgs)
    ensures
        args.refusal() is None <==> {
            &&& args.history_steps >= 2
            &&& args.horizon > 0
            &&& args.samples > 0
            &&& args.iterations > 0
            &&& Score::Key(0).at_most(args.action_scale)
        },
{
}

/// The first sample of a batch is the baseline, all of its four channels at every step; every other
/// value is disturbed by the draw of its own place, whatever the horizon.
pub proof fn law_only_the_first_sample_is_undisturbed(
    place: int,
    horizon: int,
    other_horizon: int,
)
    requires
        place >= 0,
        horizon >= 0,
        other_horizon >= 0,
    ensures
        perturbation_at(place, horizon) == Perturbation::Baseline <==> place < 4 * horizon,
        place >= 4 * horizon && place >= 4 * other_horizon ==> perturbation_at(place, horizon)
            == perturbation_at(place, other_horizon),
        noise_state(0) == 0x9E37_79B9_7F4A_7C15,
        noise_state((place + 1) as nat) == xor_shift(noise_state(place as nat)),
{
}

/// A rank beyond the last is taken for the last.
pub proof fn law_ranks_stay_in_the_list(rank: int, count: int)
    requires
        0 <= rank,
        0 < count,
    ensures
        0 <= clamped(rank, count) < count,
        rank < count ==> clamped(rank, count) == rank,
        rank >= count ==> clamped(rank, count) + 1 == count,
{
}

} // verus!
