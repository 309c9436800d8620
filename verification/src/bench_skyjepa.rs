//! The closed-loop SkyJEPA benchmark: which scenarios run, how one is judged, and the verdict.

use crate::counting::{lemma_tally_agree, lemma_tally_bounds, tally};
use crate::order::Score;
use crate::rng::{mix_seed, mixed_seed};
use vstd::arithmetic::div_mod::lemma_fundamental_div_mod_converse;
use vstd::prelude::*;

verus! {

/// The key of the length of a control step, one twentieth of a second as a 32-bit float has it.
pub const STEP_KEY: i64 = 0x3fa9_9999_a000_0000;

/// Which controller flies.
#[derive(Clone, Copy, PartialEq, Eq, Structural, Debug)]
pub enum ControllerMode {
    TrainedMppi,
    UntrainedMppi,
    NominalPhysicsMppi,
    Prior,
}

/// Which dynamics a controller predicts with.
#[derive(Clone, Copy, PartialEq, Eq, Structural, Debug)]
pub enum Dynamics {
    Trained,
    Untrained,
    NominalPhysics,
}

impl ControllerMode {
    /// The dynamics of a controller; the prior alone stands with the trained ones.
    pub fn dynamics(self) -> (dynamics: Dynamics)
        ensures
            dynamics == match self {
                ControllerMode::UntrainedMppi => Dynamics::Untrained,
                ControllerMode::NominalPhysicsMppi => Dynamics::NominalPhysics,
                _ => Dynamics::Trained,
            },
    {
        match self {
            ControllerMode::UntrainedMppi => Dynamics::Untrained,
            ControllerMode::NominalPhysicsMppi => Dynamics::NominalPhysics,
            _ => Dynamics::Trained,
        }
    }

    /// The controller warms up before the first scenario.
    pub fn warms_up(self) -> (answer: bool)
        ensures
            answer == (self != ControllerMode::Prior),
    {
        match self {
            ControllerMode::Prior => false,
            _ => true,
        }
    }
}

/// The path that is flown.
#[derive(Clone, Copy, PartialEq, Eq, Structural, Debug)]
pub enum ReferenceKind {
    Hover,
    Circle,
    FigureEight,
}

/// One scenario: a path, and a domain that is nominal unless a seed draws it.
#[derive(Clone, Copy, PartialEq, Eq, Structural, Debug)]
pub struct ScenarioSpec {
    pub reference: ReferenceKind,
    pub domain_seed: Option<u64>,
}

/// The path number `index`.
pub open spec fn reference_at(index: int) -> ReferenceKind {
    if index == 0 {
        ReferenceKind::Hover
    } else if index == 1 {
        ReferenceKind::Circle
    } else {
        ReferenceKind::FigureEight
    }
}

/// Scenario number `index`: each path in turn over all domains, the nominal one first.
pub open spec fn scenario_at(random_domains: int, domain_seed: u64, index: int) -> ScenarioSpec {
    let domain = index % (random_domains + 1);
    ScenarioSpec {
        reference: reference_at(index / (random_domains + 1)),
        domain_seed: if domain == 0 {
            None
        } else {
            Some(mixed_seed(domain_seed, (domain - 1) as u64))
        },
    }
}

/// Lists the scenarios of a benchmark.
pub fn scenario_plan(random_domains: usize, domain_seed: u64) -> (plan: Vec<ScenarioSpec>)
    requires
        random_domains < usize::MAX,
    ensures
        plan@.len() == 3 * (random_domains + 1),
        forall|i: int|
            0 <= i < plan@.len() ==> #[trigger] plan@[i] == scenario_at(
                random_domains as int,
                domain_seed,
                i,
            ),
{
    let mut plan: Vec<ScenarioSpec> = Vec::new();
    let domains: usize = random_domains + 1;
    let mut path: u8 = 0;
    while path < 3
        invariant
            path <= 3,
            domains == random_domains + 1,
            plan@.len() == path * domains,
            forall|i: int|
                0 <= i < plan@.len() ==> #[trigger] plan@[i] == scenario_at(
                    random_domains as int,
                    domain_seed,
                    i,
                ),
        decreases 3 - path,
    {
        let reference = if path == 0 {
            ReferenceKind::Hover
        } else if path == 1 {
            ReferenceKind::Circle
        } else {
            ReferenceKind::FigureEight
        };
        let mut domain: usize = 0;
        while domain < domains
            invariant
                path < 3,
                domain <= domains,
                domains == random_domains + 1,
                reference == reference_at(path as int),
                plan@.len() == path * domains + domain,
                forall|i: int|
                    0 <= i < plan@.len() ==> #[trigger] plan@[i] == scenario_at(
                        random_domains as int,
                        domain_seed,
                        i,
                    ),
            decreases domains - domain,
        {
            proof {
                lemma_fundamental_div_mod_converse(
                    path * domains + domain,
                    domains as int,
                    path as int,
                    domain as int,
                );
            }
            let seed = if domain == 0 {
                None
            } else {
                Some(mix_seed(domain_seed, (domain - 1) as u64))
            };
            plan.push(ScenarioSpec { reference, domain_seed: seed });
            domain = domain + 1;
        }
        assert((path + 1) * domains == path * domains + domains) by (nonlinear_arith);
        path = path + 1;
    }
    plan
}

/// Each path is flown over the nominal domain and over every drawn one, and all paths over the same
/// domains: first hovering, then the circle, then the figure eight.
#[verifier::spinoff_prover]
pub proof fn law_every_path_is_flown_in_every_domain(
    random_domains: int,
    domain_seed: u64,
    path: int,
    domain: int,
)
    requires
        0 <= random_domains <= u64::MAX,
        0 <= path < 3,
        0 <= domain <= random_domains,
    ensures
        ({
            let place = path * (random_domains + 1) + domain;
            let found = scenario_at(random_domains, domain_seed, place);
            &&& 0 <= place < 3 * (random_domains + 1)
            &&& found.reference == ReferenceKind::Hover <==> path == 0
            &&& found.reference == ReferenceKind::Circle <==> path == 1
            &&& found.reference == ReferenceKind::FigureEight <==> path == 2
            &&& found.domain_seed is None <==> domain == 0
            &&& found.domain_seed == scenario_at(random_domains, domain_seed, domain).domain_seed
        }),
{
    let width = random_domains + 1;
    let place = path * width + domain;
    lemma_fundamental_div_mod_converse(place, width, path, domain);
    lemma_fundamental_div_mod_converse(domain, width, 0, domain);
    assert(0 <= path * width) by (nonlinear_arith)
        requires
            0 <= path,
            0 < width,
    ;
    assert(path * width + width <= 3 * width) by (nonlinear_arith)
        requires
            path + 1 <= 3,
            0 < width,
    ;
}

/// Different drawn domains have different seeds.
pub proof fn law_drawn_domains_differ(
    random_domains: int,
    domain_seed: u64,
    first: int,
    second: int,
)
    requires
        0 <= random_domains <= u64::MAX,
        0 < first < second <= random_domains,
    ensures
        scenario_at(random_domains, domain_seed, first).domain_seed != scenario_at(
            random_domains,
            domain_seed,
            second,
        ).domain_seed,
{
    lemma_fundamental_div_mod_converse(first, random_domains + 1, 0, first);
    lemma_fundamental_div_mod_converse(second, random_domains + 1, 0, second);
    crate::rng::law_mixed_seeds_differ(domain_seed, (first - 1) as u64, (second - 1) as u64);
}

/// Why a scenario ended early.
#[derive(Clone, Copy, PartialEq, Eq, Structural, Debug)]
pub enum ScenarioFailure {
    Planning { step: usize },
    NonFinite { step: usize },
}

/// How long a planning call took, against the two limits.
#[derive(Clone, Copy, PartialEq, Eq, Structural, Debug)]
pub struct PlanTiming {
    pub over_budget: bool,
    pub over_deadline: bool,
}

/// How a planning call of that duration stands to the two limits.
pub open spec fn timed(plan_ms: Score, budget_ms: Score, deadline_ms: Score) -> PlanTiming {
    PlanTiming {
        over_budget: budget_ms.below(plan_ms),
        over_deadline: deadline_ms.below(plan_ms),
    }
}

/// A planning call exceeds a limit where it takes longer, and a call that takes longer exceeds no
/// fewer limits.
pub proof fn law_long_plans_exceed_their_limits(
    plan_ms: i64,
    longer_ms: i64,
    budget_ms: i64,
    deadline_ms: i64,
)
    requires
        plan_ms <= longer_ms,
    ensures
        ({
            let short = timed(Score::Key(plan_ms), Score::Key(budget_ms), Score::Key(deadline_ms));
            let long = timed(Score::Key(longer_ms), Score::Key(budget_ms), Score::Key(deadline_ms));
            &&& short.over_budget <==> plan_ms > budget_ms
            &&& short.over_deadline <==> plan_ms > deadline_ms
            &&& short.over_budget ==> long.over_budget
            &&& short.over_deadline ==> long.over_deadline
        }),
{
}

/// Holds the duration of a planning call against the planning budget and the control deadline.
pub fn plan_timing(plan_ms: Score, budget_ms: Score, deadline_ms: Score) -> (timing: PlanTiming)
    ensures
        timing == timed(plan_ms, budget_ms, deadline_ms),
        timing.over_budget == budget_ms.below(plan_ms),
        timing.over_deadline == deadline_ms.below(plan_ms),
{
    PlanTiming {
        over_budget: budget_ms.is_below(plan_ms),
        over_deadline: deadline_ms.is_below(plan_ms),
    }
}

/// What a scenario is held to.
#[derive(Clone, Copy, Debug)]
pub struct ScenarioLimits {
    pub max_position_rmse_m: Score,
    pub max_position_error_m: Score,
    pub max_p95_plan_ms: Score,
}

/// What was measured over a scenario.
#[derive(Clone, Copy, Debug)]
pub struct ScenarioMeasures {
    pub position_rmse_m: Score,
    pub maximum_position_error_m: Score,
    pub p95_plan_ms: Score,
}

/// What one control step did.
#[derive(Clone, Copy, Debug)]
pub struct StepEvent {
    pub timing: PlanTiming,
    /// How many of the four rotors were at their lower, and at their upper limit.
    pub low_rotors: u8,
    pub high_rotors: u8,
    pub ground_contact: bool,
    pub finite: bool,
}

/// The key of the largest force of a rotor at its lower limit, a millionth of a newton as a 32-bit
/// float has it.
pub const LOW_FORCE_KEY: i64 = 0x3eb0_c6f7_a000_0000;

/// The key of the largest height of a vehicle that touches the ground, 0.051 metres as a 32-bit
/// float has it.
pub const GROUND_KEY: i64 = 0x3faa_1cac_0000_0000;

/// How many of the rotors are at their lower limit.
pub open spec fn low_rotors(forces: Seq<Score>) -> int {
    tally(forces.len() as int, |i: int| forces[i].at_most(Score::Key(LOW_FORCE_KEY)))
}

/// How many of the rotors are at their upper limit, which begins at `upper`.
pub open spec fn high_rotors(forces: Seq<Score>, upper: Score) -> int {
    tally(forces.len() as int, |i: int| upper.at_most(forces[i]))
}

/// The vehicle touches the ground at one of the heights.
pub open spec fn touches_ground(heights: Seq<Score>) -> bool {
    exists|i: int|
        0 <= i < heights.len() && (#[trigger] heights[i]).at_most(Score::Key(GROUND_KEY))
}

/// Whether the vehicle touches the ground at one of the heights.
pub fn is_on_ground(heights: &Vec<Score>) -> (answer: bool)
    ensures
        answer == touches_ground(heights@),
{
    let mut place: usize = 0;
    while place < heights.len()
        invariant
            place <= heights@.len(),
            forall|i: int|
                0 <= i < place ==> !(#[trigger] heights@[i]).at_most(Score::Key(GROUND_KEY)),
        decreases heights@.len() - place,
    {
        if heights[place].is_at_most(Score::Key(GROUND_KEY)) {
            assert(heights@[place as int].at_most(Score::Key(GROUND_KEY)));
            return true;
        }
        place = place + 1;
    }
    false
}

/// A vehicle touches the ground where it is at most 0.051 metres high, and only there.
pub proof fn law_ground_is_touched_at_low_heights(heights: Seq<Score>, place: int, height: i64)
    requires
        0 <= place < heights.len(),
    ensures
        heights[place] == Score::Key(height) && height <= 0x3faa_1cac_0000_0000
            ==> touches_ground(heights),
        touches_ground(heights) ==> exists|i: int|
            0 <= i < heights.len() && (#[trigger] heights[i]).at_most(
                Score::Key(0x3faa_1cac_0000_0000),
            ),
{
    if heights[place] == Score::Key(height) && height <= 0x3faa_1cac_0000_0000 {
        assert(heights[place].at_most(Score::Key(GROUND_KEY)));
    }
}

/// A rotor of at most a millionth of a newton is at its lower limit, one of at least `upper` at its
/// upper limit, and no other counts.
pub proof fn law_rotors_at_their_limits_count(forces: Seq<Score>, force: i64, upper: i64)
    ensures
        low_rotors(Seq::empty()) == 0,
        high_rotors(Seq::empty(), Score::Key(upper)) == 0,
        low_rotors(forces.push(Score::Key(force))) == low_rotors(forces) + (if force
            <= 0x3eb0_c6f7_a000_0000 {
            1int
        } else {
            0int
        }),
        high_rotors(forces.push(Score::Key(force)), Score::Key(upper)) == high_rotors(
            forces,
            Score::Key(upper),
        ) + (if force >= upper {
            1int
        } else {
            0int
        }),
{
    let after = forces.push(Score::Key(force));
    let limit = Score::Key(upper);
    lemma_tally_agree(
        forces.len() as int,
        |i: int| forces[i].at_most(Score::Key(LOW_FORCE_KEY)),
        |i: int| after[i].at_most(Score::Key(LOW_FORCE_KEY)),
    );
    lemma_tally_agree(
        forces.len() as int,
        |i: int| limit.at_most(forces[i]),
        |i: int| limit.at_most(after[i]),
    );
}

impl StepEvent {
    /// What a step was like, by the forces of the rotors and by the heights that the vehicle
    /// passed through.
    pub fn observed(
        timing: PlanTiming,
        forces: &[Score; 4],
        upper: Score,
        heights: &Vec<Score>,
        finite: bool,
    ) -> (event: StepEvent)
        ensures
            event.timing == timing,
            event.low_rotors == low_rotors(forces@),
            event.high_rotors == high_rotors(forces@, upper),
            event.low_rotors <= 4,
            event.high_rotors <= 4,
            event.ground_contact == touches_ground(heights@),
            event.finite == finite,
    {
        let mut low: u8 = 0;
        let mut high: u8 = 0;
        let ghost is_low = |i: int| forces@[i].at_most(Score::Key(LOW_FORCE_KEY));
        let ghost is_high = |i: int| upper.at_most(forces@[i]);
        let mut rotor: usize = 0;
        while rotor < 4
            invariant
                rotor <= 4,
                low <= rotor,
                high <= rotor,
                is_low == (|i: int| forces@[i].at_most(Score::Key(LOW_FORCE_KEY))),
                is_high == (|i: int| upper.at_most(forces@[i])),
                low == tally(rotor as int, is_low),
                high == tally(rotor as int, is_high),
            decreases 4 - rotor,
        {
            let force: Score = forces[rotor];
            if force.is_at_most(Score::Key(LOW_FORCE_KEY)) {
                low = low + 1;
            }
            if upper.is_at_most(force) {
                high = high + 1;
            }
            rotor = rotor + 1;
        }
        let ground_contact = is_on_ground(heights);
        StepEvent { timing, low_rotors: low, high_rotors: high, ground_contact, finite }
    }
}

/// A scenario on its way.
#[derive(Clone, Copy, PartialEq, Eq, Structural, Debug)]
pub struct ScenarioRun {
    pub steps: usize,
    pub completed_steps: usize,
    pub plans: usize,
    pub low_actions: usize,
    pub high_actions: usize,
    pub planning_budget_exceedances: usize,
    pub control_deadline_misses: usize,
    pub ground_contact: bool,
    pub finite: bool,
    pub failure: Option<ScenarioFailure>,
}

/// How a scenario is judged.
#[derive(Clone, Copy, PartialEq, Eq, Structural, Debug)]
pub struct ScenarioVerdict {
    pub complete: bool,
    pub tracking_passed: bool,
    pub timing_passed: bool,
    pub passed: bool,
}

impl ScenarioRun {
    /// What holds between two steps.
    pub open spec fn well_formed(self) -> bool {
        &&& self.steps * 4 <= usize::MAX
        &&& self.completed_steps <= self.steps
        &&& self.low_actions <= 4 * self.completed_steps
        &&& self.high_actions <= 4 * self.completed_steps
        &&& self.planning_budget_exceedances <= self.plans
        &&& self.control_deadline_misses <= self.plans
        &&& match self.failure {
            None => self.finite && self.plans == self.completed_steps,
            Some(ScenarioFailure::Planning { step }) => {
                &&& self.finite
                &&& step == self.completed_steps
                &&& step < self.steps
                &&& self.plans == self.completed_steps + 1
            },
            Some(ScenarioFailure::NonFinite { step }) => {
                &&& !self.finite
                &&& step + 1 == self.completed_steps
                &&& self.plans == self.completed_steps
            },
        }
    }

    /// Another control step is due.
    pub open spec fn running(self) -> bool {
        self.failure is None && self.completed_steps < self.steps
    }

    /// Begins a scenario of `steps` control steps.
    pub fn new(steps: usize) -> (run: Self)
        requires
            steps * 4 <= usize::MAX,
        ensures
            run.well_formed(),
            run == (ScenarioRun {
                steps,
                completed_steps: 0,
                plans: 0,
                low_actions: 0,
                high_actions: 0,
                planning_budget_exceedances: 0,
                control_deadline_misses: 0,
                ground_contact: false,
                finite: true,
                failure: None,
            }),
    {
        ScenarioRun {
            steps,
            completed_steps: 0,
            plans: 0,
            low_actions: 0,
            high_actions: 0,
            planning_budget_exceedances: 0,
            control_deadline_misses: 0,
            ground_contact: false,
            finite: true,
            failure: None,
        }
    }

    /// Whether another control step is due.
    pub fn is_running(&self) -> (answer: bool)
        ensures
            answer == self.running(),
    {
        self.failure.is_none() && self.completed_steps < self.steps
    }

    /// Counts a planning call.
    pub open spec fn with_plan(self, timing: PlanTiming) -> ScenarioRun {
        ScenarioRun {
            plans: (self.plans + 1) as usize,
            planning_budget_exceedances: if timing.over_budget {
                (self.planning_budget_exceedances + 1) as usize
            } else {
                self.planning_budget_exceedances
            },
            control_deadline_misses: if timing.over_deadline {
                (self.control_deadline_misses + 1) as usize
            } else {
                self.control_deadline_misses
            },
            ..self
        }
    }

    fn count_plan(&mut self, timing: PlanTiming)
        requires
            old(self).well_formed(),
            old(self).running(),
        ensures
            *final(self) == old(self).with_plan(timing),
    {
        self.plans = self.plans + 1;
        if timing.over_budget {
            self.planning_budget_exceedances = self.planning_budget_exceedances + 1;
        }
        if timing.over_deadline {
            self.control_deadline_misses = self.control_deadline_misses + 1;
        }
    }

    /// Ends the scenario because planning failed.
    pub fn plan_failed(&mut self, timing: PlanTiming)
        requires
            old(self).well_formed(),
            old(self).running(),
        ensures
            final(self).well_formed(),
            *final(self) == (ScenarioRun {
                failure: Some(ScenarioFailure::Planning { step: old(self).completed_steps }),
                ..old(self).with_plan(timing)
            }),
    {
        let step: usize = self.completed_steps;
        self.count_plan(timing);
        self.failure = Some(ScenarioFailure::Planning { step });
    }

    /// Counts a control step.
    pub open spec fn with_step(self, event: StepEvent) -> ScenarioRun {
        ScenarioRun {
            completed_steps: (self.completed_steps + 1) as usize,
            low_actions: (self.low_actions + event.low_rotors) as usize,
            high_actions: (self.high_actions + event.high_rotors) as usize,
            ground_contact: self.ground_contact || event.ground_contact,
            finite: event.finite,
            failure: if event.finite {
                None
            } else {
                Some(ScenarioFailure::NonFinite { step: self.completed_steps })
            },
            ..self.with_plan(event.timing)
        }
    }

    /// Records a control step; one that leaves the finite numbers ends the scenario.
    pub fn stepped(&mut self, event: &StepEvent)
        requires
            old(self).well_formed(),
            old(self).running(),
            event.low_rotors <= 4,
            event.high_rotors <= 4,
        ensures
            final(self).well_formed(),
            *final(self) == old(self).with_step(*event),
            *final(self) == (ScenarioRun {
                completed_steps: (old(self).completed_steps + 1) as usize,
                low_actions: (old(self).low_actions + event.low_rotors) as usize,
                high_actions: (old(self).high_actions + event.high_rotors) as usize,
                ground_contact: old(self).ground_contact || event.ground_contact,
                finite: event.finite,
                failure: if event.finite {
                    None
                } else {
                    Some(ScenarioFailure::NonFinite { step: old(self).completed_steps })
                },
                ..old(self).with_plan(event.timing)
            }),
    {
        let step: usize = self.completed_steps;
        self.count_plan(event.timing);
        self.low_actions = self.low_actions + event.low_rotors as usize;
        self.high_actions = self.high_actions + event.high_rotors as usize;
        self.completed_steps = step + 1;
        if event.ground_contact {
            self.ground_contact = true;
        }
        if !event.finite {
            self.finite = false;
            self.failure = Some(ScenarioFailure::NonFinite { step });
        }
    }

    /// Every step was flown, with finite numbers throughout.
    pub open spec fn complete(self) -> bool {
        self.completed_steps == self.steps && self.finite && self.failure is None
    }

    /// The verdict on a scenario.
    pub open spec fn judged(
        self,
        measures: ScenarioMeasures,
        limits: ScenarioLimits,
    ) -> ScenarioVerdict {
        let tracking_passed = self.complete() && !self.ground_contact
            && measures.position_rmse_m.at_most(limits.max_position_rmse_m)
            && measures.maximum_position_error_m.at_most(limits.max_position_error_m);
        let timing_passed = self.complete() && measures.p95_plan_ms.at_most(limits.max_p95_plan_ms);
        ScenarioVerdict {
            complete: self.complete(),
            tracking_passed,
            timing_passed,
            passed: tracking_passed && timing_passed,
        }
    }

    /// Judges a scenario.
    pub fn judge(&self, measures: &ScenarioMeasures, limits: &ScenarioLimits) -> (verdict:
        ScenarioVerdict)
        ensures
            verdict == self.judged(*measures, *limits),
    {
        let complete = self.completed_steps == self.steps && self.finite && self.failure.is_none();
        let tracking_passed = complete && !self.ground_contact
            && measures.position_rmse_m.is_at_most(limits.max_position_rmse_m)
            && measures.maximum_position_error_m.is_at_most(limits.max_position_error_m);
        let timing_passed = complete && measures.p95_plan_ms.is_at_most(limits.max_p95_plan_ms);
        ScenarioVerdict {
            complete,
            tracking_passed,
            timing_passed,
            passed: tracking_passed && timing_passed,
        }
    }

    /// The number of rotor commands by which the limit counts are divided; never zero.
    pub fn action_count(&self) -> (count: usize)
        requires
            self.well_formed(),
        ensures
            count == (if self.completed_steps == 0 {
                1int
            } else {
                self.completed_steps * 4
            }),
    {
        if self.completed_steps == 0 {
            1
        } else {
            self.completed_steps * 4
        }
    }
}

/// A step that is flown is counted with its plan, its rotors at their limits and its contact with the
/// ground, which nothing behind it takes back; it ends the scenario where it is not finite.
pub proof fn law_steps_are_counted(run: ScenarioRun, event: StepEvent)
    requires
        run.well_formed(),
        run.running(),
        event.low_rotors <= 4,
        event.high_rotors <= 4,
        run.plans < usize::MAX,
    ensures
        ({
            let after = run.with_step(event);
            &&& after.steps == run.steps
            &&& after.completed_steps == run.completed_steps + 1
            &&& after.plans == run.plans + 1
            &&& after.low_actions == run.low_actions + event.low_rotors
            &&& after.high_actions == run.high_actions + event.high_rotors
            &&& event.timing.over_budget ==> after.planning_budget_exceedances
                == run.planning_budget_exceedances + 1
            &&& !event.timing.over_budget ==> after.planning_budget_exceedances
                == run.planning_budget_exceedances
            &&& event.timing.over_deadline ==> after.control_deadline_misses
                == run.control_deadline_misses + 1
            &&& !event.timing.over_deadline ==> after.control_deadline_misses
                == run.control_deadline_misses
            &&& run.ground_contact ==> after.ground_contact
            &&& event.ground_contact ==> after.ground_contact
            &&& after.ground_contact ==> run.ground_contact || event.ground_contact
            &&& event.finite ==> after.finite && (after.running() <==> after.completed_steps
                < after.steps)
            &&& !event.finite ==> !after.finite && !after.running()
        }),
{
}

/// A scenario whose tracking passes flew every step without a contact with the ground, and strayed
/// from its path by no more than its limits.
pub proof fn law_tracking_passes_within_its_limits(
    run: ScenarioRun,
    measures: ScenarioMeasures,
    limits: ScenarioLimits,
)
    requires
        run.judged(measures, limits).tracking_passed || run.judged(measures, limits).passed,
    ensures
        run.completed_steps == run.steps,
        run.finite,
        run.failure is None,
        !run.ground_contact,
        measures.position_rmse_m.at_most(limits.max_position_rmse_m),
        measures.maximum_position_error_m.at_most(limits.max_position_error_m),
{
}

/// A scenario whose timing passes flew every step and planned in time.
pub proof fn law_timing_passes_within_its_limit(
    run: ScenarioRun,
    measures: ScenarioMeasures,
    limits: ScenarioLimits,
)
    requires
        run.judged(measures, limits).timing_passed || run.judged(measures, limits).passed,
    ensures
        run.completed_steps == run.steps,
        run.finite,
        run.failure is None,
        measures.p95_plan_ms.at_most(limits.max_p95_plan_ms),
{
}

/// A scenario that flew every step is complete, passes its tracking and its timing where it keeps
/// their limits, and passes where it passes both.
pub proof fn law_scenarios_within_their_limits_pass(
    run: ScenarioRun,
    measures: ScenarioMeasures,
    limits: ScenarioLimits,
)
    requires
        run.completed_steps == run.steps,
        run.finite,
        run.failure is None,
    ensures
        run.judged(measures, limits).complete,
        !run.ground_contact && measures.position_rmse_m.at_most(limits.max_position_rmse_m)
            && measures.maximum_position_error_m.at_most(limits.max_position_error_m)
            ==> run.judged(measures, limits).tracking_passed,
        measures.p95_plan_ms.at_most(limits.max_p95_plan_ms) ==> run.judged(
            measures,
            limits,
        ).timing_passed,
        run.judged(measures, limits).tracking_passed && run.judged(measures, limits).timing_passed
            ==> run.judged(measures, limits).passed,
{
}

/// A scenario that ended early never passes.
pub proof fn law_early_end_fails(
    run: ScenarioRun,
    measures: ScenarioMeasures,
    limits: ScenarioLimits,
)
    requires
        run.well_formed(),
        run.failure is Some || run.completed_steps < run.steps,
    ensures
        !run.judged(measures, limits).complete,
        !run.judged(measures, limits).passed,
        !run.judged(measures, limits).tracking_passed,
        !run.judged(measures, limits).timing_passed,
{
}

/// A finished scenario, as the report counts it.
#[derive(Clone, Copy, Debug)]
pub struct ScenarioOutcome {
    pub randomized: bool,
    pub all_steps: bool,
    pub tracking_passed: bool,
    pub timing_passed: bool,
    pub passed: bool,
}

/// The counts of a report.
#[derive(Clone, Copy, Debug)]
pub struct ReportCounts {
    pub successful_runs: usize,
    pub tracking_successful_runs: usize,
    pub timing_successful_runs: usize,
    pub completed_runs: usize,
    pub nominal_failures: usize,
}

/// The counts over the first `end` outcomes.
pub open spec fn counts(found: ReportCounts, outcomes: Seq<ScenarioOutcome>, end: int) -> bool {
    &&& found.successful_runs == tally(end, |i: int| outcomes[i].passed)
    &&& found.tracking_successful_runs == tally(end, |i: int| outcomes[i].tracking_passed)
    &&& found.timing_successful_runs == tally(end, |i: int| outcomes[i].timing_passed)
    &&& found.completed_runs == tally(end, |i: int| outcomes[i].all_steps)
    &&& found.nominal_failures == tally(
        end,
        |i: int| !outcomes[i].randomized && !outcomes[i].passed,
    )
}

/// Counts the outcomes of a benchmark.
pub fn report_counts(outcomes: &Vec<ScenarioOutcome>) -> (found: ReportCounts)
    ensures
        counts(found, outcomes@, outcomes@.len() as int),
{
    let mut found = ReportCounts {
        successful_runs: 0,
        tracking_successful_runs: 0,
        timing_successful_runs: 0,
        completed_runs: 0,
        nominal_failures: 0,
    };
    let mut index: usize = 0;
    while index < outcomes.len()
        invariant
            index <= outcomes@.len(),
            counts(found, outcomes@, index as int),
        decreases outcomes@.len() - index,
    {
        proof {
            let end = index as int;
            lemma_tally_bounds(end, |i: int| outcomes@[i].passed);
            lemma_tally_bounds(end, |i: int| outcomes@[i].tracking_passed);
            lemma_tally_bounds(end, |i: int| outcomes@[i].timing_passed);
            lemma_tally_bounds(end, |i: int| outcomes@[i].all_steps);
            lemma_tally_bounds(end, |i: int| !outcomes@[i].randomized && !outcomes@[i].passed);
        }
        let outcome: ScenarioOutcome = outcomes[index];
        if outcome.passed {
            found.successful_runs = found.successful_runs + 1;
        }
        if outcome.tracking_passed {
            found.tracking_successful_runs = found.tracking_successful_runs + 1;
        }
        if outcome.timing_passed {
            found.timing_successful_runs = found.timing_successful_runs + 1;
        }
        if outcome.all_steps {
            found.completed_runs = found.completed_runs + 1;
        }
        if !outcome.randomized && !outcome.passed {
            found.nominal_failures = found.nominal_failures + 1;
        }
        index = index + 1;
        assert(counts(found, outcomes@, index as int));
    }
    found
}

/// Every further outcome counts where it belongs: a nominal scenario that did not pass as a nominal
/// failure, and one that passed in any respect as passed in that respect.
#[verifier::spinoff_prover]
pub proof fn law_outcomes_are_counted_once(
    before: ReportCounts,
    after: ReportCounts,
    outcomes: Seq<ScenarioOutcome>,
    outcome: ScenarioOutcome,
)
    requires
        counts(before, outcomes, outcomes.len() as int),
        counts(after, outcomes.push(outcome), outcomes.len() as int + 1),
    ensures
        after.successful_runs - before.successful_runs == (if outcome.passed {
            1int
        } else {
            0int
        }),
        after.tracking_successful_runs - before.tracking_successful_runs == (
        if outcome.tracking_passed {
            1int
        } else {
            0int
        }),
        after.timing_successful_runs - before.timing_successful_runs == (if outcome.timing_passed {
            1int
        } else {
            0int
        }),
        after.completed_runs - before.completed_runs == (if outcome.all_steps {
            1int
        } else {
            0int
        }),
        outcome.passed || outcome.randomized ==> after.nominal_failures == before.nominal_failures,
        !outcome.passed && !outcome.randomized ==> after.nominal_failures
            == before.nominal_failures + 1,
{
    let longer = outcomes.push(outcome);
    let end = outcomes.len() as int;
    lemma_tally_agree(end, |i: int| outcomes[i].passed, |i: int| longer[i].passed);
    lemma_tally_agree(
        end,
        |i: int| outcomes[i].tracking_passed,
        |i: int| longer[i].tracking_passed,
    );
    lemma_tally_agree(end, |i: int| outcomes[i].timing_passed, |i: int| longer[i].timing_passed);
    lemma_tally_agree(end, |i: int| outcomes[i].all_steps, |i: int| longer[i].all_steps);
    lemma_tally_agree(
        end,
        |i: int| !outcomes[i].randomized && !outcomes[i].passed,
        |i: int| !longer[i].randomized && !longer[i].passed,
    );
}

/// No outcomes, no counts.
pub proof fn law_counts_begin_at_zero(found: ReportCounts, outcomes: Seq<ScenarioOutcome>)
    requires
        counts(found, outcomes, 0),
    ensures
        found.successful_runs == 0,
        found.tracking_successful_runs == 0,
        found.timing_successful_runs == 0,
        found.completed_runs == 0,
        found.nominal_failures == 0,
{
}

/// A reason for which a benchmark fails.
#[derive(Clone, Copy, PartialEq, Eq, Structural, Debug)]
pub enum BenchFailure {
    Nominal(usize),
    SuccessRate,
    PlanningTime,
}

/// Everything that speaks against the controller, in the order of the report.
pub open spec fn bench_failures_of(
    nominal_failures: usize,
    success_rate: Score,
    min_success_rate: Score,
    p95_plan_ms: Score,
    max_p95_plan_ms: Score,
) -> Seq<BenchFailure> {
    (if nominal_failures > 0 {
        seq![BenchFailure::Nominal(nominal_failures)]
    } else {
        Seq::empty()
    }) + (if success_rate.below(min_success_rate) {
        seq![BenchFailure::SuccessRate]
    } else {
        Seq::empty()
    }) + (if max_p95_plan_ms.below(p95_plan_ms) {
        seq![BenchFailure::PlanningTime]
    } else {
        Seq::empty()
    })
}

/// A benchmark passes exactly where every nominal scenario passed, enough scenarios did and planning
/// was fast enough; otherwise each of these that does not hold is among its failures.
#[verifier::spinoff_prover]
pub proof fn law_benchmarks_fail_for_a_reason(
    nominal_failures: usize,
    success_rate: Score,
    min_success_rate: Score,
    p95_plan_ms: Score,
    max_p95_plan_ms: Score,
)
    ensures
        ({
            let failures = bench_failures_of(
                nominal_failures,
                success_rate,
                min_success_rate,
                p95_plan_ms,
                max_p95_plan_ms,
            );
            &&& failures.len() == 0 <==> nominal_failures == 0 && !success_rate.below(
                min_success_rate,
            ) && !max_p95_plan_ms.below(p95_plan_ms)
            &&& nominal_failures > 0 ==> failures.contains(BenchFailure::Nominal(nominal_failures))
            &&& success_rate.below(min_success_rate) ==> failures.contains(
                BenchFailure::SuccessRate,
            )
            &&& max_p95_plan_ms.below(p95_plan_ms) ==> failures.contains(BenchFailure::PlanningTime)
            &&& failures.contains(BenchFailure::SuccessRate) ==> success_rate.below(
                min_success_rate,
            )
            &&& failures.contains(BenchFailure::PlanningTime) ==> max_p95_plan_ms.below(
                p95_plan_ms,
            )
        }),
{
    let failures = bench_failures_of(
        nominal_failures,
        success_rate,
        min_success_rate,
        p95_plan_ms,
        max_p95_plan_ms,
    );
    if nominal_failures > 0 {
        assert(failures[0] == BenchFailure::Nominal(nominal_failures));
    }
    if success_rate.below(min_success_rate) {
        assert(failures[if nominal_failures > 0 {
            1
        } else {
            0
        }] == BenchFailure::SuccessRate);
    }
    if max_p95_plan_ms.below(p95_plan_ms) {
        assert(failures[failures.len() - 1] == BenchFailure::PlanningTime);
    }
}

/// Draws up the failures of a benchmark; it passes where there are none.
pub fn bench_failures(
    nominal_failures: usize,
    success_rate: Score,
    min_success_rate: Score,
    p95_plan_ms: Score,
    max_p95_plan_ms: Score,
) -> (failures: Vec<BenchFailure>)
    ensures
        failures@ == bench_failures_of(
            nominal_failures,
            success_rate,
            min_success_rate,
            p95_plan_ms,
            max_p95_plan_ms,
        ),
{
    let mut failures: Vec<BenchFailure> = Vec::new();
    if nominal_failures > 0 {
        failures.push(BenchFailure::Nominal(nominal_failures));
    }
    if success_rate.is_below(min_success_rate) {
        failures.push(BenchFailure::SuccessRate);
    }
    if max_p95_plan_ms.is_below(p95_plan_ms) {
        failures.push(BenchFailure::PlanningTime);
    }
    assert(failures@ =~= bench_failures_of(
        nominal_failures,
        success_rate,
        min_success_rate,
        p95_plan_ms,
        max_p95_plan_ms,
    ));
    failures
}

/// The settings of the command line.
#[derive(Clone, Copy, Debug)]
pub struct CheckedArgs {
    pub trim_multiplier: Score,
    pub checkpoint_is_dir: bool,
    pub samples: usize,
    pub horizon: usize,
    pub simulation_rate_hz: usize,
    pub duration_seconds: Score,
    pub radius_m: Score,
    pub period_seconds: Score,
    pub max_position_rmse_m: Score,
    pub max_position_error_m: Score,
    pub max_p95_plan_ms: Score,
    pub min_success_rate: Score,
}

impl CheckedArgs {
    /// The message of the first check that fails.
    pub open spec fn refusal(self) -> Option<Seq<char>> {
        if !self.trim_multiplier.positive() {
            Some("trim multiplier must be finite and positive"@)
        } else if !self.duration_seconds.from_key(STEP_KEY) {
            Some("benchmark duration must include at least one control step"@)
        } else if !self.checkpoint_is_dir {
            Some("checkpoint-dir does not exist"@)
        } else if self.samples == 0 {
            Some("samples must be positive"@)
        } else if self.horizon == 0 {
            Some("horizon must be positive"@)
        } else if self.simulation_rate_hz < 20 {
            Some("simulation-rate-hz must be at least 20"@)
        } else if !self.duration_seconds.positive() {
            Some("duration-seconds must be positive"@)
        } else if !self.radius_m.positive() {
            Some("radius-m must be positive"@)
        } else if !self.period_seconds.positive() {
            Some("period-seconds must be positive"@)
        } else if !self.max_position_rmse_m.positive() {
            Some("max-position-rmse-m must be positive"@)
        } else if !self.max_position_error_m.positive() {
            Some("max-position-error-m must be positive"@)
        } else if !self.max_p95_plan_ms.positive() {
            Some("max-p95-plan-ms must be positive"@)
        } else if !self.min_success_rate.in_unit_range() {
            Some("min-success-rate must be in [0, 1]"@)
        } else {
            None
        }
    }
}

/// Checks the settings of the command line, in order.
pub fn validate_args(args: &CheckedArgs) -> (result: Result<(), &'static str>)
    ensures
        match result {
            Ok(()) => args.refusal() is None,
            Err(message) => args.refusal() == Some(message@),
        },
{
    if !args.trim_multiplier.is_positive() {
        return Err("trim multiplier must be finite and positive");
    }
    if !args.duration_seconds.is_from_key(STEP_KEY) {
        return Err("benchmark duration must include at least one control step");
    }
    if !args.checkpoint_is_dir {
        return Err("checkpoint-dir does not exist");
    }
    if args.samples == 0 {
        return Err("samples must be positive");
    }
    if args.horizon == 0 {
        return Err("horizon must be positive");
    }
    if args.simulation_rate_hz < 20 {
        return Err("simulation-rate-hz must be at least 20");
    }
    if !args.duration_seconds.is_positive() {
        return Err("duration-seconds must be positive");
    }
    if !args.radius_m.is_positive() {
        return Err("radius-m must be positive");
    }
    if !args.period_seconds.is_positive() {
        return Err("period-seconds must be positive");
    }
    if !args.max_position_rmse_m.is_positive() {
        return Err("max-position-rmse-m must be positive");
    }
    if !args.max_position_error_m.is_positive() {
        return Err("max-position-error-m must be positive");
    }
    if !args.max_p95_plan_ms.is_positive() {
        return Err("max-p95-plan-ms must be positive");
    }
    if !args.min_success_rate.is_in_unit_range() {
        return Err("min-success-rate must be in [0, 1]");
    }
    Ok(())
}

/// Settings are accepted exactly where each of them is in its range; the benchmark lasts for one
/// control step of a twentieth of a second or more.
pub proof fn law_accepted_settings_are_in_range(args: CheckedArgs)
    ensures
        args.refusal() is None <==> {
            &&& args.trim_multiplier.positive()
            &&& Score::Key(0x3fa9_9999_a000_0000).at_most(args.duration_seconds)
            &&& args.duration_seconds.finite()
            &&& args.checkpoint_is_dir
            &&& args.samples > 0
            &&& args.horizon > 0
            &&& args.simulation_rate_hz >= 20
            &&& args.radius_m.positive()
            &&& args.period_seconds.positive()
            &&& args.max_position_rmse_m.positive()
            &&& args.max_position_error_m.positive()
            &&& args.max_p95_plan_ms.positive()
            &&& args.min_success_rate.in_unit_range()
        },
{
}

} // verus!
