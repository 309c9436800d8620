//! Interactive simulation of the SkyJEPA controller: its command line, controls and control loop.

use crate::bench_skyjepa::ReferenceKind;
use crate::cli::{fraction_or, read_line, scan, seed_or, size_or, take_fraction, take_seed, take_size,
    take_text, text_or, CliError, FlagSpec, Reading, Token, ValueKind};
use crate::order::Score;
use crate::paths::{stored, stored_dir};
use crate::recent::{latest, push_recent};
use crate::sim_skyjepa::{fits_model_rate, MODEL_RATE_HZ};
use crate::text::{number_up_to, same};
use vstd::prelude::*;

verus! {

/// The key of the default time scale, 1.
pub const TIME_SCALE_KEY: i64 = 0x3ff0_0000_0000_0000;

/// The key of the default radius, 2.
pub const RADIUS_KEY: i64 = 0x4000_0000_0000_0000;

/// The key of the default period, 8.
pub const PERIOD_KEY: i64 = 0x4020_0000_0000_0000;

/// How many planning times are kept.
pub const KEPT_PLAN_TIMES: usize = 240;

/// How a plan starts from the one before.
#[derive(Clone, Copy, PartialEq, Eq, Structural, Debug)]
pub enum WarmStart {
    FreshPrior,
    ShiftedResidual,
}

/// The settings of the simulator. The device and the scenario are given by the places of their
/// arguments, and by none where the defaults hold.
#[derive(Debug)]
pub struct Args {
    pub checkpoint_dir: String,
    pub device: Option<usize>,
    pub samples: usize,
    pub horizon: usize,
    pub planner_seed: u64,
    pub warm_start: WarmStart,
    pub randomize_domain: bool,
    pub domain_seed: u64,
    pub simulation_rate_hz: usize,
    pub time_scale: Score,
    pub radius_m: Score,
    pub period_seconds: Score,
    pub scenario: Option<usize>,
    pub max_trail: usize,
}

/// What the command line asks for.
#[derive(Debug)]
pub enum Request {
    Help,
    Run(Args),
}

/// The flags of the simulator.
pub open spec fn flag_table() -> Seq<FlagSpec> {
    seq![
        FlagSpec { name: "--checkpoint-dir", kind: ValueKind::Text },
        FlagSpec { name: "--device", kind: ValueKind::Device },
        FlagSpec { name: "--samples", kind: ValueKind::Size },
        FlagSpec { name: "--horizon", kind: ValueKind::Size },
        FlagSpec { name: "--planner-seed", kind: ValueKind::Seed },
        FlagSpec { name: "--warm-start", kind: ValueKind::WarmStart },
        FlagSpec { name: "--randomize-domain", kind: ValueKind::Switch },
        FlagSpec { name: "--domain-seed", kind: ValueKind::Seed },
        FlagSpec { name: "--simulation-rate-hz", kind: ValueKind::Size },
        FlagSpec { name: "--time-scale", kind: ValueKind::Fraction },
        FlagSpec { name: "--radius-m", kind: ValueKind::Fraction },
        FlagSpec { name: "--period-seconds", kind: ValueKind::Fraction },
        FlagSpec { name: "--scenario", kind: ValueKind::Scenario },
        FlagSpec { name: "--max-trail", kind: ValueKind::Size },
    ]
}

fn flags() -> (table: Vec<FlagSpec>)
    ensures
        table@ == flag_table(),
{
    let mut table: Vec<FlagSpec> = Vec::new();
    table.push(FlagSpec { name: "--checkpoint-dir", kind: ValueKind::Text });
    table.push(FlagSpec { name: "--device", kind: ValueKind::Device });
    table.push(FlagSpec { name: "--samples", kind: ValueKind::Size });
    table.push(FlagSpec { name: "--horizon", kind: ValueKind::Size });
    table.push(FlagSpec { name: "--planner-seed", kind: ValueKind::Seed });
    table.push(FlagSpec { name: "--warm-start", kind: ValueKind::WarmStart });
    table.push(FlagSpec { name: "--randomize-domain", kind: ValueKind::Switch });
    table.push(FlagSpec { name: "--domain-seed", kind: ValueKind::Seed });
    table.push(FlagSpec { name: "--simulation-rate-hz", kind: ValueKind::Size });
    table.push(FlagSpec { name: "--time-scale", kind: ValueKind::Fraction });
    table.push(FlagSpec { name: "--radius-m", kind: ValueKind::Fraction });
    table.push(FlagSpec { name: "--period-seconds", kind: ValueKind::Fraction });
    table.push(FlagSpec { name: "--scenario", kind: ValueKind::Scenario });
    table.push(FlagSpec { name: "--max-trail", kind: ValueKind::Size });
    assert(table@ =~= flag_table());
    table
}

/// The start of plans that the value at `value` names.
pub open spec fn warm_start_of(tokens: Seq<Token>, value: Option<usize>) -> WarmStart {
    match value {
        Some(place) if tokens[place as int].text@ != "fresh-prior"@ => WarmStart::ShiftedResidual,
        _ => WarmStart::FreshPrior,
    }
}

impl Args {
    /// The settings are those of a command line whose values stand at `values`.
    pub open spec fn taken_from(
        self,
        tokens: Seq<Token>,
        values: Seq<Option<usize>>,
        home: Option<&str>,
    ) -> bool {
        &&& self.checkpoint_dir@ == text_or(tokens, values[0], default_dir(home))
        &&& self.device == values[1]
        &&& self.samples == size_or(tokens, values[2], 512)
        &&& self.horizon == size_or(tokens, values[3], 15)
        &&& self.planner_seed == seed_or(tokens, values[4], 7)
        &&& self.warm_start == warm_start_of(tokens, values[5])
        &&& self.randomize_domain == (values[6] is Some)
        &&& self.domain_seed == seed_or(tokens, values[7], 9001)
        &&& self.simulation_rate_hz == size_or(tokens, values[8], 200)
        &&& self.time_scale == fraction_or(tokens, values[9], Score::Key(TIME_SCALE_KEY))
        &&& self.radius_m == fraction_or(tokens, values[10], Score::Key(RADIUS_KEY))
        &&& self.period_seconds == fraction_or(tokens, values[11], Score::Key(PERIOD_KEY))
        &&& self.scenario == values[12]
        &&& self.max_trail == size_or(tokens, values[13], 2400)
    }

    /// Reads the command line.
    pub fn parse(tokens: &Vec<Token>, home: Option<&str>) -> (result: Result<Request, CliError>)
        ensures
            match read_line(flag_table(), true, tokens@) {
                Reading::Help => result matches Ok(Request::Help),
                Reading::Failed(error) => result matches Err(found) && found == error,
                Reading::Values(values) => result matches Ok(Request::Run(args))
                    && args.taken_from(tokens@, values, home),
            },
    {
        let table = flags();
        let values = match scan(&table, true, tokens) {
            Err(error) => {
                return Err(error);
            },
            Ok(None) => {
                return Ok(Request::Help);
            },
            Ok(Some(values)) => values,
        };
        let warm_start = match values[5] {
            Some(place) => if same(tokens[place].text.as_str(), "fresh-prior") {
                WarmStart::FreshPrior
            } else {
                WarmStart::ShiftedResidual
            },
            None => WarmStart::FreshPrior,
        };
        Ok(
            Request::Run(
                Args {
                    checkpoint_dir: take_text(
                        tokens,
                        values[0],
                        default_checkpoint_dir(home).as_str(),
                    ),
                    device: values[1],
                    samples: take_size(tokens, values[2], 512),
                    horizon: take_size(tokens, values[3], 15),
                    planner_seed: take_seed(tokens, values[4], 7),
                    warm_start,
                    randomize_domain: values[6].is_some(),
                    domain_seed: take_seed(tokens, values[7], 9001),
                    simulation_rate_hz: take_size(tokens, values[8], 200),
                    time_scale: take_fraction(tokens, values[9], Score::Key(TIME_SCALE_KEY)),
                    radius_m: take_fraction(tokens, values[10], Score::Key(RADIUS_KEY)),
                    period_seconds: take_fraction(tokens, values[11], Score::Key(PERIOD_KEY)),
                    scenario: values[12],
                    max_trail: take_size(tokens, values[13], 2400),
                },
            ),
        )
    }

    /// The message of the first check that fails, where the checkpoint is a directory or not.
    pub open spec fn refusal(self, checkpoint_is_dir: bool) -> Option<Seq<char>> {
        if !checkpoint_is_dir {
            Some("checkpoint-dir does not exist"@)
        } else if self.samples == 0 {
            Some("samples must be positive"@)
        } else if self.horizon == 0 {
            Some("horizon must be positive"@)
        } else if !fits_model_rate(self.simulation_rate_hz as int) {
            Some("simulation-rate-hz must be an integer multiple of 20"@)
        } else if !self.time_scale.positive() {
            Some("time-scale must be positive"@)
        } else if !self.radius_m.positive() {
            Some("radius-m must be positive"@)
        } else if !self.period_seconds.positive() {
            Some("period-seconds must be positive"@)
        } else if self.max_trail <= 1 {
            Some("max-trail must exceed one"@)
        } else {
            None
        }
    }

    /// Checks the settings, in order.
    pub fn validate(&self, checkpoint_is_dir: bool) -> (result: Result<(), &'static str>)
        ensures
            match result {
                Ok(()) => self.refusal(checkpoint_is_dir) is None,
                Err(message) => self.refusal(checkpoint_is_dir) == Some(message@),
            },
    {
        if !checkpoint_is_dir {
            return Err("checkpoint-dir does not exist");
        }
        if self.samples == 0 {
            return Err("samples must be positive");
        }
        if self.horizon == 0 {
            return Err("horizon must be positive");
        }
        if self.simulation_rate_hz < MODEL_RATE_HZ || self.simulation_rate_hz % MODEL_RATE_HZ
            != 0 {
            return Err("simulation-rate-hz must be an integer multiple of 20");
        }
        if !self.time_scale.is_positive() {
            return Err("time-scale must be positive");
        }
        if !self.radius_m.is_positive() {
            return Err("radius-m must be positive");
        }
        if !self.period_seconds.is_positive() {
            return Err("period-seconds must be positive");
        }
        if self.max_trail <= 1 {
            return Err("max-trail must exceed one");
        }
        Ok(())
    }
}

/// The plant's steps in one control step.
pub fn substeps(simulation_rate_hz: usize) -> (count: usize)
    requires
        fits_model_rate(simulation_rate_hz as int),
    ensures
        count * MODEL_RATE_HZ == simulation_rate_hz,
        count > 0,
{
    simulation_rate_hz / MODEL_RATE_HZ
}

/// The keys that steer the simulation.
#[derive(Clone, Copy, PartialEq, Eq, Structural, Debug)]
pub struct SimKeys {
    pub pause: bool,
    pub controller: bool,
    pub hover: bool,
    pub circle: bool,
    pub figure_eight: bool,
    pub reset: bool,
    pub new_domain: bool,
}

/// What the keys ask of the plant and the controller.
#[derive(Clone, Copy, PartialEq, Eq, Structural, Debug)]
pub struct SimOrders {
    /// The plant and the controller start over.
    pub reset: bool,
    /// A plant of the domain with this seed takes the place of the present one.
    pub new_domain: Option<u64>,
}

/// What steers the simulation.
#[derive(Debug)]
pub struct SimControl<T> {
    pub paused: bool,
    pub controller_enabled: bool,
    pub scenario: ReferenceKind,
    pub domain_seed: u64,
    pub control_steps: usize,
    pub plan_times: Vec<T>,
    /// What went wrong last, until the simulation has started over.
    pub last_error: Option<String>,
}

/// The path that the keys ask for.
pub open spec fn scenario_after(keys: SimKeys, scenario: ReferenceKind) -> ReferenceKind {
    if keys.figure_eight {
        ReferenceKind::FigureEight
    } else if keys.circle {
        ReferenceKind::Circle
    } else if keys.hover {
        ReferenceKind::Hover
    } else {
        scenario
    }
}

/// What of a simulation a restart or a plan changes.
#[verifier::ext_equal]
pub struct SimState<T> {
    pub paused: bool,
    pub control_steps: usize,
    pub plan_times: Seq<T>,
    pub last_error: Option<String>,
}

/// The state behind a restart.
pub open spec fn state_restarted<T>(state: SimState<T>, outcome: Result<(), String>) -> SimState<T> {
    match outcome {
        Ok(()) => SimState {
            paused: state.paused,
            control_steps: 0,
            plan_times: Seq::empty(),
            last_error: None,
        },
        Err(error) => SimState { paused: true, last_error: Some(error), ..state },
    }
}

/// The state behind the planning of a control step.
pub open spec fn state_planned<T>(
    state: SimState<T>,
    enabled: bool,
    outcome: Result<T, String>,
) -> SimState<T> {
    if !enabled {
        state
    } else {
        match outcome {
            Ok(time) => SimState {
                plan_times: latest(state.plan_times.push(time), KEPT_PLAN_TIMES as int),
                ..state
            },
            Err(error) => SimState { paused: true, last_error: Some(error), ..state },
        }
    }
}

/// A failure stops the simulation and stays on record until it has started over; a restart forgets the
/// counts, the times and the error, but does not set it going.
pub proof fn law_errors_stay_until_a_restart<T>(
    state: SimState<T>,
    error: String,
    time: T,
    enabled: bool,
)
    ensures
        state_restarted(state, Ok(())).last_error is None,
        state_restarted(state, Ok(())).control_steps == 0,
        state_restarted(state, Ok(())).plan_times.len() == 0,
        state_restarted(state, Ok(())).paused == state.paused,
        state_restarted(state, Err(error)).paused,
        state_restarted(state, Err(error)).last_error == Some(error),
        state_restarted(state, Err(error)).control_steps == state.control_steps,
        state_restarted(state, Err(error)).plan_times == state.plan_times,
        state_planned(state, true, Err(error)).paused,
        state_planned(state, true, Err(error)).last_error == Some(error),
        state_planned(state, true, Err(error)).plan_times == state.plan_times,
        state_planned(state, false, Err(error)) == state,
        state_planned(state, enabled, Ok(time)).last_error == state.last_error,
        state_planned(state, enabled, Ok(time)).paused == state.paused,
        state_planned(state, enabled, Ok(time)).control_steps == state.control_steps,
        state_planned(state, true, Ok(time)).plan_times.len() > 0 && state_planned(
            state,
            true,
            Ok(time),
        ).plan_times.last() == time,
        state_planned(state, true, Ok(time)).plan_times.len() <= 240,
{
}

impl<T> SimControl<T> {
    /// What a restart or a plan changes.
    pub open spec fn state(self) -> SimState<T> {
        SimState {
            paused: self.paused,
            control_steps: self.control_steps,
            plan_times: self.plan_times@,
            last_error: self.last_error,
        }
    }

    /// What holds between the calls.
    pub open spec fn well_formed(self) -> bool {
        self.plan_times@.len() <= KEPT_PLAN_TIMES
    }

    /// A simulation that runs under the controller.
    pub fn new(scenario: ReferenceKind, domain_seed: u64) -> (control: SimControl<T>)
        ensures
            control.well_formed(),
            !control.paused,
            control.controller_enabled,
            control.scenario == scenario,
            control.domain_seed == domain_seed,
            control.control_steps == 0,
            control.plan_times@.len() == 0,
            control.last_error is None,
    {
        SimControl {
            paused: false,
            controller_enabled: true,
            scenario,
            domain_seed,
            control_steps: 0,
            plan_times: Vec::new(),
            last_error: None,
        }
    }

    /// Takes in the keys.
    pub fn press(&mut self, keys: SimKeys) -> (orders: SimOrders)
        requires
            old(self).well_formed(),
        ensures
            final(self).well_formed(),
            final(self).paused == (old(self).paused != keys.pause),
            final(self).controller_enabled == (old(self).controller_enabled != keys.controller),
            final(self).scenario == scenario_after(keys, old(self).scenario),
            final(self).domain_seed == if keys.new_domain {
                old(self).domain_seed.wrapping_add(1)
            } else {
                old(self).domain_seed
            },
            final(self).control_steps == old(self).control_steps,
            final(self).plan_times@ == old(self).plan_times@,
            final(self).last_error == old(self).last_error,
            orders == (SimOrders {
                reset: keys.reset,
                new_domain: if keys.new_domain {
                    Some(final(self).domain_seed)
                } else {
                    None
                },
            }),
    {
        if keys.pause {
            self.paused = !self.paused;
        }
        if keys.controller {
            self.controller_enabled = !self.controller_enabled;
        }
        if keys.hover {
            self.scenario = ReferenceKind::Hover;
        }
        if keys.circle {
            self.scenario = ReferenceKind::Circle;
        }
        if keys.figure_eight {
            self.scenario = ReferenceKind::FigureEight;
        }
        let mut new_domain: Option<u64> = None;
        if keys.new_domain {
            let seed: u64 = self.domain_seed.wrapping_add(1);
            self.domain_seed = seed;
            new_domain = Some(seed);
        }
        SimOrders { reset: keys.reset, new_domain }
    }

    /// Takes in how a restart ended: one that failed stops the simulation with its error, one that
    /// did not starts the counts over and clears the error.
    pub fn restarted(&mut self, outcome: Result<(), String>)
        requires
            old(self).well_formed(),
        ensures
            final(self).state() == state_restarted(old(self).state(), outcome),
            final(self).well_formed(),
            final(self).controller_enabled == old(self).controller_enabled,
            final(self).scenario == old(self).scenario,
            final(self).domain_seed == old(self).domain_seed,
            match outcome {
                Ok(()) => {
                    &&& final(self).paused == old(self).paused
                    &&& final(self).control_steps == 0
                    &&& final(self).plan_times@.len() == 0
                    &&& final(self).last_error is None
                },
                Err(error) => {
                    &&& final(self).paused
                    &&& final(self).control_steps == old(self).control_steps
                    &&& final(self).plan_times@ == old(self).plan_times@
                    &&& final(self).last_error == Some(error)
                },
            },
    {
        match outcome {
            Ok(()) => {
                self.control_steps = 0;
                self.plan_times = Vec::new();
                self.last_error = None;
            },
            Err(error) => {
                self.last_error = Some(error);
                self.paused = true;
            },
        }
    }

    /// Takes in how the planning of a control step ended: with the time that it took, or with an
    /// error. The answer is whether the step goes on; a failure stops the simulation with its error.
    /// With the controller off there is nothing to plan.
    pub fn planned(&mut self, outcome: Result<T, String>) -> (goes_on: bool)
        requires
            old(self).well_formed(),
        ensures
            final(self).state() == state_planned(
                old(self).state(),
                old(self).controller_enabled,
                outcome,
            ),
            final(self).well_formed(),
            final(self).controller_enabled == old(self).controller_enabled,
            final(self).scenario == old(self).scenario,
            final(self).domain_seed == old(self).domain_seed,
            final(self).control_steps == old(self).control_steps,
            goes_on == (!old(self).controller_enabled || outcome is Ok),
            final(self).paused == (old(self).paused || !goes_on),
            final(self).plan_times@ == match outcome {
                Ok(time) if old(self).controller_enabled => latest(
                    old(self).plan_times@.push(time),
                    KEPT_PLAN_TIMES as int,
                ),
                _ => old(self).plan_times@,
            },
            final(self).last_error == match outcome {
                Err(error) if old(self).controller_enabled => Some(error),
                _ => old(self).last_error,
            },
    {
        if !self.controller_enabled {
            return true;
        }
        match outcome {
            Ok(time) => {
                push_recent(&mut self.plan_times, time, KEPT_PLAN_TIMES);
                true
            },
            Err(error) => {
                self.last_error = Some(error);
                self.paused = true;
                false
            },
        }
    }

    /// Counts a control step.
    pub fn stepped(&mut self)
        requires
            old(self).well_formed(),
            old(self).control_steps < usize::MAX,
        ensures
            final(self).well_formed(),
            final(self).control_steps == old(self).control_steps + 1,
            final(self).paused == old(self).paused,
            final(self).controller_enabled == old(self).controller_enabled,
            final(self).scenario == old(self).scenario,
            final(self).domain_seed == old(self).domain_seed,
            final(self).plan_times@ == old(self).plan_times@,
            final(self).last_error == old(self).last_error,
    {
        self.control_steps = self.control_steps + 1;
    }
}

/// The checkpoint that is simulated by default.
pub open spec fn default_dir(home: Option<&str>) -> Seq<char> {
    stored(home, "le-wm-nv-runs"@, "skyjepa-drone-state18-20hz"@)
}

/// Names the checkpoint that is simulated by default.
pub fn default_checkpoint_dir(home: Option<&str>) -> (path: String)
    ensures
        path@ == default_dir(home),
{
    stored_dir(home, "le-wm-nv-runs", "skyjepa-drone-state18-20hz")
}

/// Each flag sets its own setting, and what is not set is as it is by default.
#[verifier::spinoff_prover]
pub proof fn law_flags_set_their_settings(
    args: Args,
    tokens: Seq<Token>,
    values: Seq<Option<usize>>,
    home: Option<&str>,
    place: usize,
)
    requires
        args.taken_from(tokens, values, home),
    ensures
        flag_table().len() == 14,
        flag_table()[0].name@ == "--checkpoint-dir"@,
        values[0] == Some(place) ==> args.checkpoint_dir@ == tokens[place as int].text@,
        flag_table()[1].name@ == "--device"@,
        args.device == values[1],
        flag_table()[5].name@ == "--warm-start"@,
        values[5] == Some(place) && tokens[place as int].text@ == "fresh-prior"@ ==> args.warm_start
            == WarmStart::FreshPrior,
        values[5] == Some(place) && tokens[place as int].text@ == "shifted-residual"@
            ==> args.warm_start == WarmStart::ShiftedResidual,
        values[5] is None ==> args.warm_start == WarmStart::FreshPrior,
        flag_table()[6].name@ == "--randomize-domain"@,
        args.randomize_domain <==> values[6] is Some,
        flag_table()[12].name@ == "--scenario"@,
        args.scenario == values[12],
        flag_table()[2].name@ == "--samples"@,
        values[2] == Some(place) && number_up_to(
            tokens[place as int].text@,
            usize::MAX as nat,
        ) is Some ==> args.samples == number_up_to(tokens[place as int].text@, usize::MAX as nat)->0,
        values[2] is None ==> args.samples == 512,
        flag_table()[3].name@ == "--horizon"@,
        values[3] == Some(place) && number_up_to(
            tokens[place as int].text@,
            usize::MAX as nat,
        ) is Some ==> args.horizon == number_up_to(tokens[place as int].text@, usize::MAX as nat)->0,
        values[3] is None ==> args.horizon == 15,
        flag_table()[8].name@ == "--simulation-rate-hz"@,
        values[8] == Some(place) && number_up_to(
            tokens[place as int].text@,
            usize::MAX as nat,
        ) is Some ==> args.simulation_rate_hz == number_up_to(tokens[place as int].text@, usize::MAX as nat)->0,
        values[8] is None ==> args.simulation_rate_hz == 200,
        flag_table()[13].name@ == "--max-trail"@,
        values[13] == Some(place) && number_up_to(
            tokens[place as int].text@,
            usize::MAX as nat,
        ) is Some ==> args.max_trail == number_up_to(tokens[place as int].text@, usize::MAX as nat)->0,
        values[13] is None ==> args.max_trail == 2400,
        flag_table()[4].name@ == "--planner-seed"@,
        values[4] == Some(place) && number_up_to(
            tokens[place as int].text@,
            u64::MAX as nat,
        ) is Some ==> args.planner_seed == number_up_to(tokens[place as int].text@, u64::MAX as nat)->0,
        values[4] is None ==> args.planner_seed == 7,
        flag_table()[7].name@ == "--domain-seed"@,
        values[7] == Some(place) && number_up_to(
            tokens[place as int].text@,
            u64::MAX as nat,
        ) is Some ==> args.domain_seed == number_up_to(tokens[place as int].text@, u64::MAX as nat)->0,
        values[7] is None ==> args.domain_seed == 9001,
        flag_table()[9].name@ == "--time-scale"@,
        values[9] == Some(place) && tokens[place as int].fraction is Some ==> args.time_scale
            == tokens[place as int].fraction->0,
        values[9] is None ==> args.time_scale == Score::Key(0x3ff0_0000_0000_0000),
        flag_table()[10].name@ == "--radius-m"@,
        values[10] == Some(place) && tokens[place as int].fraction is Some ==> args.radius_m
            == tokens[place as int].fraction->0,
        values[10] is None ==> args.radius_m == Score::Key(0x4000_0000_0000_0000),
        flag_table()[11].name@ == "--period-seconds"@,
        values[11] == Some(place) && tokens[place as int].fraction is Some ==> args.period_seconds
            == tokens[place as int].fraction->0,
        values[11] is None ==> args.period_seconds == Score::Key(0x4020_0000_0000_0000),
{
    reveal_strlit("fresh-prior");
    reveal_strlit("shifted-residual");
    assert("fresh-prior"@.len() == 11);
    assert("shifted-residual"@.len() == 16);
}

/// Settings are accepted exactly where the checkpoint is there and each of them is in its range.
pub proof fn law_accepted_settings_are_in_range(args: Args, checkpoint_is_dir: bool)
    ensures
        args.refusal(checkpoint_is_dir) is None <==> {
            &&& checkpoint_is_dir
            &&& args.samples > 0
            &&& args.horizon > 0
            &&& args.simulation_rate_hz >= 20
            &&& args.simulation_rate_hz % 20 == 0
            &&& args.time_scale.positive()
            &&& args.radius_m.positive()
            &&& args.period_seconds.positive()
            &&& args.max_trail > 1
        },
{
}

/// Each of the three keys chooses its path; of several that are pressed at once the figure eight comes
/// before the circle and the circle before hovering, and without one the path stays.
pub proof fn law_keys_choose_the_path(keys: SimKeys, scenario: ReferenceKind)
    ensures
        keys.figure_eight ==> scenario_after(keys, scenario) == ReferenceKind::FigureEight,
        keys.circle && !keys.figure_eight ==> scenario_after(keys, scenario)
            == ReferenceKind::Circle,
        keys.hover && !keys.circle && !keys.figure_eight ==> scenario_after(keys, scenario)
            == ReferenceKind::Hover,
        !keys.hover && !keys.circle && !keys.figure_eight ==> scenario_after(keys, scenario)
            == scenario,
        KEPT_PLAN_TIMES == 240,
{
}

} // verus!
