//! Receding-horizon planning through a loop of gates: choice of flight and gate, the loop's
//! bookkeeping, and the shapes of the tensors that pass through it.

use crate::counting::{lemma_tally_agree, lemma_tally_bounds, tally};
use crate::order::Score;
use crate::paths::{join, joined, stored, stored_dir};
use vstd::arithmetic::div_mod::lemma_fundamental_div_mod_converse;
use vstd::prelude::*;

verus! {

/// The flight that is chosen for an episode: the first one of that episode, or else the first.
pub open spec fn chosen_flight(episodes: Seq<i64>, episode: i64, flight: int) -> bool {
    &&& 0 <= flight < episodes.len()
    &&& if episodes.contains(episode) {
        &&& episodes[flight] == episode
        &&& forall|earlier: int| 0 <= earlier < flight ==> #[trigger] episodes[earlier] != episode
    } else {
        flight == 0
    }
}

/// Chooses the flight of an episode, where `episodes` lists the flights' episodes.
pub fn select_flight(episodes: &[i64], episode: i64) -> (result: Result<usize, &'static str>)
    ensures
        match result {
            Ok(flight) => chosen_flight(episodes@, episode, flight as int),
            Err(message) => episodes@.len() == 0 && message@
                == "gate file does not contain any flights"@,
        },
{
    let mut flight: usize = 0;
    while flight < episodes.len()
        invariant
            flight <= episodes@.len(),
            forall|earlier: int|
                0 <= earlier < flight ==> #[trigger] episodes@[earlier] != episode,
        decreases episodes@.len() - flight,
    {
        if episodes[flight] == episode {
            assert(episodes@.contains(episode));
            return Ok(flight);
        }
        flight = flight + 1;
    }
    if episodes.len() == 0 {
        Err("gate file does not contain any flights")
    } else {
        Ok(0)
    }
}

/// A flight of the episode is chosen wherever there is one, and none before it is of that episode; the
/// first flight is chosen otherwise.
pub proof fn law_flights_are_chosen_by_their_episode(
    episodes: Seq<i64>,
    episode: i64,
    flight: int,
    other: int,
)
    requires
        chosen_flight(episodes, episode, flight),
        0 <= other < episodes.len(),
    ensures
        episodes[other] == episode ==> episodes[flight] == episode && flight <= other,
        (forall|i: int| 0 <= i < episodes.len() ==> #[trigger] episodes[i] != episode) ==> flight
            == 0,
{
    if episodes[other] == episode {
        assert(episodes.contains(episode));
    }
}

/// The next gate is the one behind, and the first one behind the last.
pub proof fn law_gates_follow_each_other(gates: int, gate_index: int)
    requires
        0 <= gate_index < gates,
    ensures
        gate_index + 1 < gates ==> following_gate(gates, gate_index) == gate_index + 1,
        gate_index + 1 == gates ==> following_gate(gates, gate_index) == 0,
{
    if gate_index + 1 < gates {
        lemma_fundamental_div_mod_converse(gate_index + 1, gates, 0, gate_index + 1);
    } else {
        lemma_fundamental_div_mod_converse(gate_index + 1, gates, 1, 0);
    }
}

/// Why no gate can be chosen.
#[derive(Clone, Copy, PartialEq, Eq, Structural, Debug)]
pub enum GateError {
    NoFlights,
    /// The flight has no gate of that index.
    NoGate { flight: usize, gate_index: usize },
}

/// Chooses the flight of an episode and a gate of it; `gates` counts the flights' gates.
pub fn select_gate(episodes: &[i64], gates: &[usize], episode: i64, gate_index: usize) -> (result:
    Result<(usize, usize), GateError>)
    requires
        episodes@.len() == gates@.len(),
    ensures
        match result {
            Ok((flight, gate)) => {
                &&& chosen_flight(episodes@, episode, flight as int)
                &&& gate == gate_index
                &&& gate_index < gates@[flight as int]
            },
            Err(GateError::NoFlights) => episodes@.len() == 0,
            Err(GateError::NoGate { flight, gate_index: index }) => {
                &&& chosen_flight(episodes@, episode, flight as int)
                &&& index == gate_index
                &&& gate_index >= gates@[flight as int]
            },
        },
{
    match select_flight(episodes, episode) {
        Err(_) => Err(GateError::NoFlights),
        Ok(flight) => {
            if gate_index < gates[flight] {
                Ok((flight, gate_index))
            } else {
                Err(GateError::NoGate { flight, gate_index })
            }
        },
    }
}

/// Which gate follows gate `gate_index` in the loop.
pub open spec fn following_gate(gates: int, gate_index: int) -> int {
    (gate_index + 1) % gates
}

/// Which gate stands behind gate `gate_index` of a flight; the first one follows the last.
pub fn next_gate_in_flight(gates: usize, gate_index: usize) -> (next: Option<usize>)
    requires
        gate_index < usize::MAX,
    ensures
        next == if gates == 0 {
            None
        } else {
            Some(following_gate(gates as int, gate_index as int) as usize)
        },
{
    if gates == 0 {
        None
    } else {
        Some((gate_index + 1) % gates)
    }
}

/// Chooses the flight of an episode and, behind one of its gates, the next one.
pub fn select_next_gate(
    episodes: &[i64],
    gates: &[usize],
    episode: i64,
    gate_index: usize,
) -> (result: Result<(usize, usize), GateError>)
    requires
        episodes@.len() == gates@.len(),
        gate_index < usize::MAX,
    ensures
        match result {
            Ok((flight, gate)) => {
                &&& chosen_flight(episodes@, episode, flight as int)
                &&& gates@[flight as int] > 0
                &&& gate == following_gate(gates@[flight as int] as int, gate_index as int)
            },
            Err(GateError::NoFlights) => episodes@.len() == 0,
            Err(GateError::NoGate { flight, gate_index: index }) => {
                &&& chosen_flight(episodes@, episode, flight as int)
                &&& index == gate_index
                &&& gates@[flight as int] == 0
            },
        },
{
    match select_flight(episodes, episode) {
        Err(_) => Err(GateError::NoFlights),
        Ok(flight) => match next_gate_in_flight(gates[flight], gate_index) {
            Some(gate) => Ok((flight, gate)),
            None => Err(GateError::NoGate { flight, gate_index }),
        },
    }
}

/// The key of the distance below which a step touches the plane of a gate, a quarter of a metre.
pub const PLANE_REACH_KEY: i64 = 0x3fd0_0000_0000_0000;

/// Where a step lies relative to a gate, in metres.
#[derive(Clone, Copy, Debug)]
pub struct GateCrossing {
    /// The signed distances from its plane at the beginning and at the end of the step.
    pub plane_before: Score,
    pub plane_after: Score,
    /// The distances from its center, to the side and in height, at the end of the step.
    pub lateral: Score,
    pub lateral_limit: Score,
    pub vertical: Score,
    pub vertical_limit: Score,
    /// The distance from its center at the end of the step.
    pub center_distance: Score,
    pub center_limit: Score,
}

/// A point at that distance from the plane of a gate touches it.
pub open spec fn touches_plane(distance: Score) -> bool {
    distance matches Score::Key(key) && -PLANE_REACH_KEY < key < PLANE_REACH_KEY
}

fn is_touching(distance: Score) -> (answer: bool)
    ensures
        answer == touches_plane(distance),
{
    match distance {
        Score::NotANumber => false,
        Score::Key(key) => -PLANE_REACH_KEY < key && key < PLANE_REACH_KEY,
    }
}

/// The two distances lie on different sides of the plane; one that is not a number lies on the
/// side of none.
pub open spec fn sides_differ(before: Score, after: Score) -> bool {
    match (before, after) {
        (Score::Key(first), Score::Key(second)) => (first < 0) != (second < 0),
        _ => true,
    }
}

impl GateCrossing {
    /// The step passes its plane, or comes close to it.
    pub open spec fn crossed(self) -> bool {
        ||| sides_differ(self.plane_before, self.plane_after)
        ||| touches_plane(self.plane_before)
        ||| touches_plane(self.plane_after)
    }

    /// The step ends inside its frame.
    pub open spec fn inside(self) -> bool {
        self.lateral.at_most(self.lateral_limit) && self.vertical.at_most(self.vertical_limit)
    }

    /// The step leads through its frame, or close enough to its center.
    pub open spec fn passes(self) -> bool {
        (self.crossed() && self.inside()) || self.center_distance.below(self.center_limit)
    }
}

/// Whether a step passes a gate: it crosses the plane and ends inside the frame, or it ends close
/// to the center.
pub fn gate_passed(crossing: &GateCrossing) -> (passed: bool)
    ensures
        passed == crossing.passes(),
        passed == ((crossing.crossed() && crossing.inside()) || crossing.center_distance.below(
            crossing.center_limit,
        )),
        passed && !crossing.center_distance.below(crossing.center_limit) ==> {
            &&& crossing.lateral.at_most(crossing.lateral_limit)
            &&& crossing.vertical.at_most(crossing.vertical_limit)
        },
        crossing.center_distance.below(crossing.center_limit) ==> passed,
{
    let differ = match (crossing.plane_before, crossing.plane_after) {
        (Score::Key(first), Score::Key(second)) => (first < 0) != (second < 0),
        _ => true,
    };
    let crossed = differ || is_touching(crossing.plane_before) || is_touching(crossing.plane_after);
    let inside = crossing.lateral.is_at_most(crossing.lateral_limit)
        && crossing.vertical.is_at_most(crossing.vertical_limit);
    (crossed && inside) || crossing.center_distance.is_below(crossing.center_limit)
}

/// A step that does not end close to the center passes a gate only through its frame: at its end it is
/// neither too far to the side nor too high or low.
pub proof fn law_gates_are_passed_through_their_frame(crossing: GateCrossing)
    requires
        crossing.passes(),
        !crossing.center_distance.below(crossing.center_limit),
    ensures
        crossing.lateral.at_most(crossing.lateral_limit),
        crossing.vertical.at_most(crossing.vertical_limit),
{
}

/// A step that stays a quarter of a metre or more on one side of the plane passes a gate only where it
/// ends close to the center.
pub proof fn law_gates_are_not_passed_on_one_side(crossing: GateCrossing, before: i64, after: i64)
    requires
        crossing.plane_before == Score::Key(before),
        crossing.plane_after == Score::Key(after),
        (before >= 0x3fd0_0000_0000_0000 && after >= 0x3fd0_0000_0000_0000) || (before
            <= -0x3fd0_0000_0000_0000 && after <= -0x3fd0_0000_0000_0000),
    ensures
        crossing.passes() <==> crossing.center_distance.below(crossing.center_limit),
{
}

/// A step that goes through the plane, from either side, or that begins or ends within a quarter of
/// a metre of it, passes a gate where it ends inside the frame. One that ends close to the center
/// passes it in any case.
pub proof fn law_crossings_inside_the_frame_pass(crossing: GateCrossing, before: i64, after: i64)
    requires
        crossing.plane_before == Score::Key(before),
        crossing.plane_after == Score::Key(after),
    ensures
        crossing.lateral.at_most(crossing.lateral_limit) && crossing.vertical.at_most(
            crossing.vertical_limit,
        ) && (before < 0 <= after || after < 0 <= before || -0x3fd0_0000_0000_0000 < before
            < 0x3fd0_0000_0000_0000 || -0x3fd0_0000_0000_0000 < after < 0x3fd0_0000_0000_0000)
            ==> crossing.passes(),
        crossing.center_distance.below(crossing.center_limit) ==> crossing.passes(),
{
}

/// A step whose distance from the plane is not a number, at either end, is on no side of it and passes
/// a gate where it ends inside the frame. One whose distances from the center are not numbers never
/// does.
pub proof fn law_unknown_distances_are_on_no_side(crossing: GateCrossing)
    ensures
        (crossing.plane_before == Score::NotANumber || crossing.plane_after == Score::NotANumber)
            && crossing.lateral.at_most(crossing.lateral_limit) && crossing.vertical.at_most(
            crossing.vertical_limit,
        ) ==> crossing.passes(),
        crossing.center_distance == Score::NotANumber && (crossing.lateral == Score::NotANumber
            || crossing.vertical == Score::NotANumber) ==> !crossing.passes(),
{
}

/// A step that ends closer to the center, to the side and in height passes whatever gate one that
/// ends farther out passes.
pub proof fn law_ending_closer_passes_no_less(crossing: GateCrossing, closer: GateCrossing)
    requires
        crossing.passes(),
        closer.plane_before == crossing.plane_before,
        closer.plane_after == crossing.plane_after,
        closer.lateral_limit == crossing.lateral_limit,
        closer.vertical_limit == crossing.vertical_limit,
        closer.center_limit == crossing.center_limit,
        closer.lateral.at_most(crossing.lateral),
        closer.vertical.at_most(crossing.vertical),
        closer.center_distance.at_most(crossing.center_distance),
    ensures
        closer.passes(),
{
}

/// The settings of a gate loop.
#[derive(Clone, Copy, Debug)]
pub struct LoopSettings {
    pub gates: usize,
    pub loop_steps: usize,
    pub control_stride: usize,
    pub laps: usize,
    pub samples: usize,
}

/// One replanning of a gate loop.
#[derive(Clone, Copy, Debug)]
pub struct ReplanRecord {
    /// The steps executed when the plan ran out.
    pub executed_steps: usize,
    pub gate_index: usize,
    pub passed_gate: bool,
    pub candidate_sequences_scored: usize,
}

/// A gate loop between two replannings.
#[derive(Debug)]
pub struct GateLoop {
    pub settings: LoopSettings,
    pub first_gate: usize,
    pub gate_index: usize,
    pub completed_laps: usize,
    pub executed_steps: usize,
    pub candidate_sequences_scored: usize,
    pub replans: Vec<ReplanRecord>,
}

/// How many of the replannings passed their gate.
pub open spec fn passes(replans: Seq<ReplanRecord>) -> int {
    tally(replans.len() as int, |i: int| replans[i].passed_gate)
}

/// The candidates that all replannings scored together.
pub open spec fn candidates(replans: Seq<ReplanRecord>) -> int
    decreases replans.len(),
{
    if replans.len() == 0 {
        0
    } else {
        candidates(replans.drop_last()) + replans.last().candidate_sequences_scored
    }
}

impl GateLoop {
    /// What holds between two replannings: gate and laps follow from the number of gates
    /// passed, and the counters from the replannings.
    pub open spec fn well_formed(self) -> bool {
        &&& self.settings.gates > 0
        &&& self.settings.control_stride > 0
        &&& self.first_gate < self.settings.gates
        &&& self.gate_index < self.settings.gates
        &&& self.completed_laps * self.settings.gates + self.gate_index == self.first_gate
            + passes(self.replans@)
        &&& self.replans@.len() <= self.executed_steps <= self.settings.loop_steps
        &&& self.candidate_sequences_scored == candidates(self.replans@)
        &&& self.settings.laps > 0 ==> self.completed_laps <= self.settings.laps
    }

    /// Another plan is due: steps are left, and the laps are not complete.
    pub open spec fn unfinished(self) -> bool {
        &&& self.executed_steps < self.settings.loop_steps
        &&& !(self.settings.laps > 0 && self.completed_laps >= self.settings.laps)
    }

    /// How many actions of a plan of `horizon` actions are executed.
    pub open spec fn stride_of(self, horizon: int) -> int {
        let wanted = if self.settings.control_stride < horizon {
            self.settings.control_stride as int
        } else {
            horizon
        };
        let left = self.settings.loop_steps - self.executed_steps;
        if wanted < left {
            wanted
        } else {
            left
        }
    }

    /// Begins a loop at a gate; indices beyond the last gate count on from the first.
    pub fn start(settings: LoopSettings, gate_index: usize) -> (result: Result<
        GateLoop,
        &'static str,
    >)
        requires
            settings.control_stride > 0,
        ensures
            match result {
                Ok(gate_loop) => {
                    &&& settings.gates > 0
                    &&& gate_loop.well_formed()
                    &&& gate_loop.settings == settings
                    &&& gate_loop.first_gate == gate_index as int % (settings.gates as int)
                    &&& gate_loop.gate_index == gate_loop.first_gate
                    &&& gate_loop.completed_laps == 0
                    &&& gate_loop.executed_steps == 0
                    &&& gate_loop.replans@.len() == 0
                },
                Err(message) => settings.gates == 0 && message@ == "selected flight has no gates"@,
            },
    {
        if settings.gates == 0 {
            return Err("selected flight has no gates");
        }
        let first_gate: usize = gate_index % settings.gates;
        assert(0 * settings.gates == 0) by (nonlinear_arith);
        Ok(
            GateLoop {
                settings,
                first_gate,
                gate_index: first_gate,
                completed_laps: 0,
                executed_steps: 0,
                candidate_sequences_scored: 0,
                replans: Vec::new(),
            },
        )
    }

    /// Whether another plan is due.
    pub fn is_unfinished(&self) -> (answer: bool)
        ensures
            answer == self.unfinished(),
    {
        self.executed_steps < self.settings.loop_steps && !(self.settings.laps > 0
            && self.completed_laps >= self.settings.laps)
    }

    /// How many actions of a plan to execute.
    pub fn stride(&self, horizon: usize) -> (stride: usize)
        requires
            self.well_formed(),
        ensures
            stride == self.stride_of(horizon as int),
    {
        let wanted: usize = if self.settings.control_stride < horizon {
            self.settings.control_stride
        } else {
            horizon
        };
        let left: usize = self.settings.loop_steps - self.executed_steps;
        if wanted < left {
            wanted
        } else {
            left
        }
    }

    /// Records that the actions of a plan were executed, and moves on to the next gate where the
    /// current one was passed.
    pub fn advance(&mut self, horizon: usize, iterations: usize, passed: bool) -> (record:
        ReplanRecord)
        requires
            old(self).well_formed(),
            old(self).unfinished(),
            horizon > 0,
            old(self).settings.samples * iterations <= usize::MAX,
            old(self).candidate_sequences_scored + old(self).settings.samples * iterations
                <= usize::MAX,
        ensures
            final(self).well_formed(),
            final(self).settings == old(self).settings,
            final(self).first_gate == old(self).first_gate,
            final(self).executed_steps == old(self).executed_steps + old(self).stride_of(
                horizon as int,
            ),
            final(self).replans@ == old(self).replans@.push(record),
            record.executed_steps == final(self).executed_steps,
            record.gate_index == old(self).gate_index,
            record.passed_gate == passed,
            record.candidate_sequences_scored == old(self).settings.samples * iterations,
            final(self).gate_index == (if passed {
                following_gate(old(self).settings.gates as int, old(self).gate_index as int)
            } else {
                old(self).gate_index as int
            }),
            final(self).completed_laps == old(self).completed_laps + (if passed && old(
                self,
            ).gate_index + 1 == old(self).settings.gates {
                1int
            } else {
                0int
            }),
    {
        let stride: usize = self.stride(horizon);
        let ghost before = self.replans@;
        proof {
            lemma_laps_bounded(*self);
        }
        let executed_steps: usize = self.executed_steps + stride;
        let record = ReplanRecord {
            executed_steps,
            gate_index: self.gate_index,
            passed_gate: passed,
            candidate_sequences_scored: self.settings.samples * iterations,
        };
        self.executed_steps = executed_steps;
        self.candidate_sequences_scored = self.candidate_sequences_scored
            + record.candidate_sequences_scored;
        self.replans.push(record);
        proof {
            assert(self.replans@.drop_last() =~= before);
            lemma_tally_agree(
                before.len() as int,
                |i: int| before[i].passed_gate,
                |i: int| self.replans@[i].passed_gate,
            );
            assert(passes(self.replans@) == passes(before) + (if passed {
                1int
            } else {
                0int
            }));
            let gates = self.settings.gates as int;
            let laps = self.completed_laps as int;
            assert((laps + 1) * gates == laps * gates + gates) by (nonlinear_arith);
        }
        if passed {
            if self.gate_index + 1 == self.settings.gates {
                proof {
                    lemma_fundamental_div_mod_converse(
                        self.gate_index + 1,
                        self.settings.gates as int,
                        1,
                        0,
                    );
                }
                self.gate_index = 0;
                self.completed_laps = self.completed_laps + 1;
            } else {
                proof {
                    lemma_fundamental_div_mod_converse(
                        self.gate_index + 1,
                        self.settings.gates as int,
                        0,
                        self.gate_index + 1,
                    );
                }
                self.gate_index = self.gate_index + 1;
            }
        }
        record
    }
}

proof fn lemma_laps_bounded(gate_loop: GateLoop)
    requires
        gate_loop.well_formed(),
    ensures
        gate_loop.completed_laps <= passes(gate_loop.replans@) <= gate_loop.executed_steps,
{
    let replans = gate_loop.replans@;
    lemma_tally_bounds(replans.len() as int, |i: int| replans[i].passed_gate);
    let gates = gate_loop.settings.gates as int;
    let laps = gate_loop.completed_laps as int;
    let first = gate_loop.first_gate as int;
    let index = gate_loop.gate_index as int;
    let passed = passes(replans);
    assert(laps <= passed) by (nonlinear_arith)
        requires
            gates > 0,
            0 <= first < gates,
            0 <= index,
            0 <= passed,
            laps * gates + index == first + passed,
    ;
}

/// Gate and laps of a loop follow from the gates passed alone: gates are taken in order,
/// and a lap is complete each time the first gate comes up again.
pub proof fn law_gates_are_taken_in_order(gate_loop: GateLoop)
    requires
        gate_loop.well_formed(),
    ensures
        gate_loop.gate_index == (gate_loop.first_gate + passes(gate_loop.replans@)) % (
        gate_loop.settings.gates as int),
        gate_loop.completed_laps == (gate_loop.first_gate + passes(gate_loop.replans@)) / (
        gate_loop.settings.gates as int),
        gate_loop.executed_steps <= gate_loop.settings.loop_steps,
{
    lemma_fundamental_div_mod_converse(
        gate_loop.first_gate + passes(gate_loop.replans@),
        gate_loop.settings.gates as int,
        gate_loop.completed_laps as int,
        gate_loop.gate_index as int,
    );
}

/// Each replanning that passed its gate counts once, and so do its candidates.
#[verifier::spinoff_prover]
pub proof fn law_replans_add_up(replans: Seq<ReplanRecord>, record: ReplanRecord)
    ensures
        passes(Seq::empty()) == 0,
        candidates(Seq::empty()) == 0,
        passes(replans.push(record)) == passes(replans) + (if record.passed_gate {
            1int
        } else {
            0int
        }),
        candidates(replans.push(record)) == candidates(replans)
            + record.candidate_sequences_scored,
{
    let after = replans.push(record);
    assert(after.drop_last() =~= replans);
    lemma_tally_agree(
        replans.len() as int,
        |i: int| replans[i].passed_gate,
        |i: int| after[i].passed_gate,
    );
}

/// A plan is executed as far as the stride, the plan and the steps that are left allow, and no less.
pub proof fn law_strides_are_as_long_as_they_may_be(gate_loop: GateLoop, horizon: int)
    requires
        gate_loop.well_formed(),
        horizon > 0,
    ensures
        ({
            let stride = gate_loop.stride_of(horizon);
            &&& stride <= gate_loop.settings.control_stride
            &&& stride <= horizon
            &&& gate_loop.executed_steps + stride <= gate_loop.settings.loop_steps
            &&& stride == gate_loop.settings.control_stride || stride == horizon
                || gate_loop.executed_steps + stride == gate_loop.settings.loop_steps
        }),
{
}

/// A loop goes on until its steps are executed or, where laps are asked for, until they are flown.
pub proof fn law_loops_end_with_their_steps_or_laps(gate_loop: GateLoop)
    requires
        gate_loop.well_formed(),
    ensures
        gate_loop.executed_steps == gate_loop.settings.loop_steps ==> !gate_loop.unfinished(),
        gate_loop.settings.laps > 0 && gate_loop.completed_laps == gate_loop.settings.laps
            ==> !gate_loop.unfinished(),
        !gate_loop.unfinished() ==> gate_loop.executed_steps == gate_loop.settings.loop_steps || (
        gate_loop.settings.laps > 0 && gate_loop.completed_laps == gate_loop.settings.laps),
{
}

/// Which gate comes up `count` gates behind gate `gate_index`.
pub open spec fn gate_after(gates: int, gate_index: int, count: int) -> int
    decreases count,
{
    if count <= 0 {
        gate_index
    } else {
        following_gate(gates, gate_after(gates, gate_index, count - 1))
    }
}

proof fn lemma_gate_after(gates: int, gate_index: int, count: int)
    requires
        gates > 0,
        0 <= gate_index < gates,
        count >= 0,
    ensures
        gate_after(gates, gate_index, count) == (gate_index + count) % gates,
    decreases count,
{
    if count == 0 {
        lemma_fundamental_div_mod_converse(gate_index, gates, 0, gate_index);
    } else {
        lemma_gate_after(gates, gate_index, count - 1);
        vstd::arithmetic::div_mod::lemma_add_mod_noop(gate_index + count - 1, 1, gates);
        vstd::arithmetic::div_mod::lemma_add_mod_noop((gate_index + count - 1) % gates, 1, gates);
        vstd::arithmetic::div_mod::lemma_mod_twice(gate_index + count - 1, gates);
    }
}

/// Going on from gate to gate leads back to the starting gate after one round, and not before.
pub proof fn law_gates_form_a_loop(gates: int, gate_index: int, count: int)
    requires
        gates > 0,
        0 <= gate_index < gates,
        0 < count <= gates,
    ensures
        gate_after(gates, gate_index, count) == gate_index <==> count == gates,
{
    lemma_gate_after(gates, gate_index, count);
    if gate_index + count < gates {
        lemma_fundamental_div_mod_converse(gate_index + count, gates, 0, gate_index + count);
    } else {
        lemma_fundamental_div_mod_converse(
            gate_index + count,
            gates,
            1,
            gate_index + count - gates,
        );
    }
}

/// Why a plan cannot be executed.
#[derive(Clone, Copy, PartialEq, Eq, Structural, Debug)]
pub enum AdvanceError {
    /// No step is to be executed.
    NoSteps,
    /// The plan is not that of one batch.
    NotSingleBatch,
    /// The actions of the plan have another width.
    ActionDim(usize),
    /// The plan has fewer actions than are to be executed.
    ShortPlan,
    /// The rollout ends before the steps and the history behind them.
    ShortRollout,
}

/// What stands against executing `stride` actions of a plan.
pub open spec fn advance_refusal(
    stride: usize,
    batch: usize,
    horizon: usize,
    action_dim: usize,
    expected_action_dim: usize,
) -> Option<AdvanceError> {
    if stride == 0 {
        Some(AdvanceError::NoSteps)
    } else if batch != 1 {
        Some(AdvanceError::NotSingleBatch)
    } else if action_dim != expected_action_dim {
        Some(AdvanceError::ActionDim(action_dim))
    } else if horizon < stride {
        Some(AdvanceError::ShortPlan)
    } else {
        None
    }
}

/// Actions are executed where there are any to execute, the plan is that of one batch, its actions have
/// the expected width and it has as many of them.
pub proof fn law_plans_are_executed_where_they_suffice(
    stride: usize,
    batch: usize,
    horizon: usize,
    action_dim: usize,
    expected_action_dim: usize,
)
    ensures
        advance_refusal(stride, batch, horizon, action_dim, expected_action_dim) is None <==> 0
            < stride <= horizon && batch == 1 && action_dim == expected_action_dim,
        advance_refusal(stride, batch, horizon, action_dim, expected_action_dim) == Some(
            AdvanceError::ShortPlan,
        ) ==> stride > horizon,
        advance_refusal(stride, batch, horizon, action_dim, expected_action_dim) == Some(
            AdvanceError::ActionDim(action_dim),
        ) ==> action_dim != expected_action_dim,
{
}

/// Checks that `stride` actions of a plan of shape `(batch, horizon, action_dim)` can be executed.
pub fn check_advance(
    stride: usize,
    batch: usize,
    horizon: usize,
    action_dim: usize,
    expected_action_dim: usize,
) -> (result: Result<(), AdvanceError>)
    ensures
        match advance_refusal(stride, batch, horizon, action_dim, expected_action_dim) {
            None => result is Ok,
            Some(error) => result == Err::<(), AdvanceError>(error),
        },
        match result {
            Ok(()) => stride > 0 && batch == 1 && action_dim == expected_action_dim && horizon
                >= stride,
            Err(AdvanceError::NoSteps) => stride == 0,
            Err(AdvanceError::NotSingleBatch) => stride > 0 && batch != 1,
            Err(AdvanceError::ActionDim(found)) => stride > 0 && batch == 1 && found == action_dim
                && action_dim != expected_action_dim,
            Err(AdvanceError::ShortPlan) => stride > 0 && batch == 1 && action_dim
                == expected_action_dim && horizon < stride,
            Err(AdvanceError::ShortRollout) => false,
        },
{
    if stride == 0 {
        return Err(AdvanceError::NoSteps);
    }
    if batch != 1 {
        return Err(AdvanceError::NotSingleBatch);
    }
    if action_dim != expected_action_dim {
        return Err(AdvanceError::ActionDim(action_dim));
    }
    if horizon < stride {
        return Err(AdvanceError::ShortPlan);
    }
    Ok(())
}

/// The parts of a rollout that executing `stride` actions uses: the predicted steps, and the
/// history from which to plan next.
#[derive(Clone, Copy, PartialEq, Eq, Structural, Debug)]
pub struct AdvanceWindow {
    pub predicted_start: usize,
    pub predicted_end: usize,
    pub history_start: usize,
    pub history_end: usize,
}

/// The parts of a rollout that executing `stride` actions behind a history uses.
pub open spec fn window_after(stride: usize, history_steps: usize) -> AdvanceWindow {
    AdvanceWindow {
        predicted_start: history_steps,
        predicted_end: (history_steps + stride) as usize,
        history_start: stride,
        history_end: (stride + history_steps) as usize,
    }
}

/// The predicted steps follow right behind the history, as many as are executed, and the new history
/// ends with them and is as long as the old one.
pub proof fn law_history_moves_on_with_the_steps(stride: usize, history_steps: usize)
    requires
        stride + history_steps <= usize::MAX,
    ensures
        window_after(stride, history_steps).predicted_start == history_steps,
        window_after(stride, history_steps).predicted_end - window_after(
            stride,
            history_steps,
        ).predicted_start == stride,
        window_after(stride, history_steps).history_end == window_after(
            stride,
            history_steps,
        ).predicted_end,
        window_after(stride, history_steps).history_end - window_after(
            stride,
            history_steps,
        ).history_start == history_steps,
{
}

/// Finds the parts of a rollout of `rollout_time` steps that executing a plan uses.
pub fn advance_window(stride: usize, history_steps: usize, rollout_time: usize) -> (result: Result<
    AdvanceWindow,
    AdvanceError,
>)
    ensures
        stride + history_steps <= rollout_time <==> result is Ok,
        result matches Ok(window) ==> window == window_after(stride, history_steps),
        match result {
            Ok(window) => {
                &&& stride + history_steps <= rollout_time
                &&& window.predicted_start == history_steps
                &&& window.predicted_end == history_steps + stride
                &&& window.history_start == stride
                &&& window.history_end == stride + history_steps
            },
            Err(error) => stride + history_steps > rollout_time && error
                == AdvanceError::ShortRollout,
        },
{
    if stride > rollout_time || history_steps > rollout_time - stride {
        return Err(AdvanceError::ShortRollout);
    }
    Ok(
        AdvanceWindow {
            predicted_start: history_steps,
            predicted_end: history_steps + stride,
            history_start: stride,
            history_end: stride + history_steps,
        },
    )
}

/// The window of a rollout stays inside it, holds `stride` predicted steps, and leaves a history
/// as long as before.
pub proof fn law_advance_keeps_history_length(
    stride: usize,
    history_steps: usize,
    rollout_time: usize,
    window: AdvanceWindow,
)
    requires
        stride + history_steps <= rollout_time,
        window.predicted_start == history_steps,
        window.predicted_end == history_steps + stride,
        window.history_start == stride,
        window.history_end == stride + history_steps,
    ensures
        window.predicted_end - window.predicted_start == stride,
        window.history_end - window.history_start == history_steps,
        window.predicted_end <= rollout_time,
        window.history_end == window.predicted_end,
{
}

/// The row and step of the frame behind a frame.
pub fn next_frame_index(row: usize, step_idx: i64) -> (next: (usize, i64))
    requires
        step_idx < i64::MAX,
    ensures
        next.0 == (if row == usize::MAX {
            usize::MAX as int
        } else {
            row + 1
        }),
        next.1 == step_idx + 1,
{
    (row.saturating_add(1), step_idx + 1)
}

/// Why a tensor of candidates cannot be scored.
#[derive(Clone, Copy, PartialEq, Eq, Structural, Debug)]
pub enum ShapeError {
    /// The tensor has another number of dimensions than batch, samples, horizon and action.
    Rank,
    /// The tensor holds several batches or actions of another width.
    Extent,
}

/// Reads the shape of a tensor of candidates: its samples and its horizon.
pub fn candidate_shape(dims: &[usize], expected_action_dim: usize) -> (result: Result<
    (usize, usize),
    ShapeError,
>)
    ensures
        match result {
            Ok((samples, horizon)) => dims@ == seq![1usize, samples, horizon, expected_action_dim],
            Err(ShapeError::Rank) => dims@.len() != 4,
            Err(ShapeError::Extent) => dims@.len() == 4 && (dims@[0] != 1 || dims@[3]
                != expected_action_dim),
        },
{
    if dims.len() != 4 {
        return Err(ShapeError::Rank);
    }
    if dims[0] != 1 || dims[3] != expected_action_dim {
        return Err(ShapeError::Extent);
    }
    assert(dims@ =~= seq![1usize, dims@[1], dims@[2], expected_action_dim]);
    Ok((dims[1], dims[2]))
}

/// The first step of a rollout that is scored.
pub open spec fn scored_from(history_steps: int, rollout_time: int) -> int {
    let last = if rollout_time == 0 {
        0
    } else {
        rollout_time - 1
    };
    if history_steps < last {
        history_steps
    } else {
        last
    }
}

/// Finds the first step of a rollout that is scored: the one behind the history, or the last.
pub fn first_scored_step(history_steps: usize, rollout_time: usize) -> (step: usize)
    ensures
        step == scored_from(history_steps as int, rollout_time as int),
{
    let last: usize = rollout_time.saturating_sub(1);
    if history_steps < last {
        history_steps
    } else {
        last
    }
}

/// Scoring begins right behind the history, or with the last step of a rollout that ends before.
pub proof fn law_scoring_begins_behind_the_history(history_steps: int, rollout_time: int)
    requires
        history_steps >= 0,
        rollout_time > 0,
    ensures
        0 <= scored_from(history_steps, rollout_time) < rollout_time,
        history_steps < rollout_time ==> scored_from(history_steps, rollout_time) == history_steps,
        history_steps >= rollout_time ==> scored_from(history_steps, rollout_time) + 1
            == rollout_time,
{
}

/// The samples that one block of the scoring kernel handles.
pub const SCORE_BLOCK: u32 = 128;

/// How the scoring kernel is launched.
#[derive(Clone, Copy, PartialEq, Eq, Structural, Debug)]
pub struct ScoreLaunch {
    pub grid: u32,
    pub start_step: usize,
    pub has_next_gate: bool,
}

/// What the scoring kernel needs to know of the tensors.
#[derive(Clone, Copy, Debug)]
pub struct ScoreInputs {
    /// The predicted deltas, and the candidates, are 32-bit floats on the accelerator.
    pub deltas_on_device: bool,
    pub candidates_on_device: bool,
    pub action_dim: usize,
    pub samples: u32,
    pub rollout_time: usize,
    pub history_steps: usize,
    /// There is a next gate.
    pub next_gate: bool,
    pub next_gate_weight: Score,
}

/// How the scoring kernel is launched for such tensors.
pub open spec fn launch_of(inputs: ScoreInputs) -> ScoreLaunch {
    ScoreLaunch {
        grid: ((inputs.samples + SCORE_BLOCK - 1) / (SCORE_BLOCK as int)) as u32,
        start_step: scored_from(inputs.history_steps as int, inputs.rollout_time as int) as usize,
        has_next_gate: inputs.next_gate && inputs.next_gate_weight.over_key(0),
    }
}

/// There are as many blocks of 128 samples as it takes to score them all, and no more. The next gate
/// counts where there is one and it has a positive weight.
pub proof fn law_launches_score_every_sample(inputs: ScoreInputs)
    requires
        inputs.samples + SCORE_BLOCK <= u32::MAX,
    ensures
        launch_of(inputs).grid * 128 >= inputs.samples,
        inputs.samples > 0 ==> (launch_of(inputs).grid - 1) * 128 < inputs.samples,
        launch_of(inputs).has_next_gate <==> inputs.next_gate && Score::Key(0).below(
            inputs.next_gate_weight,
        ),
        inputs.history_steps < inputs.rollout_time ==> launch_of(inputs).start_step
            == inputs.history_steps,
{
}

/// Plans the launch of the scoring kernel; none is launched unless both tensors are on the
/// accelerator.
pub fn score_launch(inputs: &ScoreInputs, expected_action_dim: usize) -> (result: Result<
    Option<ScoreLaunch>,
    usize,
>)
    requires
        inputs.deltas_on_device && inputs.candidates_on_device ==> inputs.samples + SCORE_BLOCK
            <= u32::MAX,
    ensures
        result matches Ok(Some(launch)) ==> launch == launch_of(*inputs),
        match result {
            Ok(None) => !inputs.deltas_on_device || !inputs.candidates_on_device,
            Ok(Some(launch)) => {
                &&& inputs.deltas_on_device && inputs.candidates_on_device
                &&& inputs.action_dim == expected_action_dim
                &&& launch.grid == (inputs.samples + SCORE_BLOCK - 1) / (SCORE_BLOCK as int)
                &&& launch.start_step == scored_from(
                    inputs.history_steps as int,
                    inputs.rollout_time as int,
                )
                &&& launch.has_next_gate == (inputs.next_gate && inputs.next_gate_weight.over_key(0))
            },
            Err(found) => {
                &&& inputs.deltas_on_device && inputs.candidates_on_device
                &&& inputs.action_dim != expected_action_dim
                &&& found == inputs.action_dim
            },
        },
{
    if !inputs.deltas_on_device || !inputs.candidates_on_device {
        return Ok(None);
    }
    if inputs.action_dim != expected_action_dim {
        return Err(inputs.action_dim);
    }
    Ok(
        Some(
            ScoreLaunch {
                grid: (inputs.samples + SCORE_BLOCK - 1) / SCORE_BLOCK,
                start_step: first_scored_step(inputs.history_steps, inputs.rollout_time),
                has_next_gate: inputs.next_gate && inputs.next_gate_weight.is_over_key(0),
            },
        ),
    )
}

/// Every sample has exactly one block and thread of the launch, and every block has a sample.
pub proof fn law_launch_covers_samples(samples: int, sample: int)
    requires
        0 <= sample < samples,
    ensures
        0 <= sample / (SCORE_BLOCK as int) < (samples + SCORE_BLOCK - 1) / (SCORE_BLOCK as int),
        (sample / (SCORE_BLOCK as int)) * SCORE_BLOCK + sample % (SCORE_BLOCK as int) == sample,
        ((samples + SCORE_BLOCK - 1) / (SCORE_BLOCK as int) - 1) * SCORE_BLOCK < samples,
{
}

/// Where the kernel finds the delta of a sample at a step.
pub open spec fn delta_offset(sample: int, step: int, rollout_time: int, delta_dim: int) -> int {
    (sample * rollout_time + step) * delta_dim
}

/// The kernel reads each delta inside the tensor, and no two samples or steps share one.
pub proof fn law_deltas_lie_in_the_tensor(
    samples: int,
    rollout_time: int,
    delta_dim: int,
    sample: int,
    step: int,
    value: int,
)
    requires
        0 <= sample < samples,
        0 <= step < rollout_time,
        0 <= value < delta_dim,
    ensures
        0 <= delta_offset(sample, step, rollout_time, delta_dim) + value,
        delta_offset(sample, step, rollout_time, delta_dim) + value < samples * rollout_time
            * delta_dim,
        (delta_offset(sample, step, rollout_time, delta_dim) + value) / delta_dim == sample
            * rollout_time + step,
{
    let place = sample * rollout_time + step;
    assert(0 <= place < samples * rollout_time) by (nonlinear_arith)
        requires
            0 <= sample < samples,
            0 <= step < rollout_time,
            place == sample * rollout_time + step,
    ;
    let rows = samples * rollout_time;
    assert(0 <= place * delta_dim + value < rows * delta_dim) by (nonlinear_arith)
        requires
            0 <= place < rows,
            0 <= value < delta_dim,
    ;
    lemma_fundamental_div_mod_converse(place * delta_dim + value, delta_dim, place, value);
}

/// The best candidate of each batch: the first of its ranking. A batch without candidates is an
/// error.
pub fn best_indices(rankings: &Vec<Vec<u32>>) -> (result: Result<Vec<usize>, usize>)
    ensures
        result matches Ok(best) ==> forall|i: int|
            0 <= i < best@.len() ==> Some(#[trigger] best@[i]) == first_ranked(rankings@[i]@),
        match result {
            Ok(best) => best@.len() == rankings@.len() && forall|i: int|
                0 <= i < rankings@.len() ==> (#[trigger] rankings@[i])@.len() > 0 && best@[i]
                    == rankings@[i]@[0],
            Err(batch) => {
                &&& batch < rankings@.len()
                &&& rankings@[batch as int]@.len() == 0
                &&& forall|i: int| 0 <= i < batch ==> (#[trigger] rankings@[i])@.len() > 0
            },
        },
{
    let mut best: Vec<usize> = Vec::new();
    let mut batch: usize = 0;
    while batch < rankings.len()
        invariant
            batch <= rankings@.len(),
            best@.len() == batch,
            forall|i: int|
                0 <= i < batch ==> (#[trigger] rankings@[i])@.len() > 0 && best@[i]
                    == rankings@[i]@[0],
        decreases rankings@.len() - batch,
    {
        if rankings[batch].len() == 0 {
            return Err(batch);
        }
        best.push(rankings[batch][0] as usize);
        batch = batch + 1;
    }
    Ok(best)
}

/// The candidate that a ranking puts first.
pub open spec fn first_ranked(ranking: Seq<u32>) -> Option<usize> {
    if ranking.len() == 0 {
        None
    } else {
        Some(ranking[0] as usize)
    }
}

/// Whatever stands behind the first candidate of a ranking does not change which is best.
pub proof fn law_the_first_of_a_ranking_is_best(best: u32, rest: Seq<u32>)
    ensures
        first_ranked(seq![best] + rest) == Some(best as usize),
        first_ranked(Seq::empty()) is None,
{
}

/// The length of the planned action sequences: the horizon, but not less than the history.
pub fn planning_horizon(horizon: usize, history_steps: usize) -> (length: usize)
    ensures
        length == (if horizon < history_steps {
            history_steps
        } else {
            horizon
        }),
{
    if horizon < history_steps {
        history_steps
    } else {
        horizon
    }
}

/// The settings of the command line.
#[derive(Clone, Copy, Debug)]
pub struct CheckedArgs {
    pub history_steps: usize,
    pub horizon: usize,
    pub samples: usize,
    pub elites: usize,
    pub control_stride: usize,
    pub next_gate_weight: Score,
    pub min_altitude: Score,
    pub max_speed: Score,
}

impl CheckedArgs {
    /// The message of the first check that fails.
    pub open spec fn refusal(self) -> Option<Seq<char>> {
        if self.history_steps == 0 {
            Some("--history-steps must be greater than zero"@)
        } else if self.horizon == 0 {
            Some("--horizon must be greater than zero"@)
        } else if self.samples == 0 {
            Some("--samples must be greater than zero"@)
        } else if self.elites < 2 {
            Some("--elites must be at least two"@)
        } else if self.elites > self.samples {
            Some("--elites must be <= --samples"@)
        } else if self.control_stride == 0 {
            Some("--control-stride must be greater than zero"@)
        } else if self.control_stride > self.horizon {
            Some("--control-stride must be <= --horizon"@)
        } else if !self.next_gate_weight.non_negative() {
            Some("--next-gate-weight must be finite and non-negative"@)
        } else if !self.min_altitude.finite() {
            Some("--min-altitude must be finite"@)
        } else if !self.max_speed.positive() {
            Some("--max-speed must be finite and greater than zero"@)
        } else {
            None
        }
    }
}

/// Checks the settings of the command line, in order.
pub fn validate_args(args: &CheckedArgs) -> (result: Result<(), &'static str>)
    ensures
        match result {
            Ok(()) => args.refusal() is None,
            Err(message) => args.refusal() == Some(message@),
        },
{
    if args.history_steps == 0 {
        return Err("--history-steps must be greater than zero");
    }
    if args.horizon == 0 {
        return Err("--horizon must be greater than zero");
    }
    if args.samples == 0 {
        return Err("--samples must be greater than zero");
    }
    if args.elites < 2 {
        return Err("--elites must be at least two");
    }
    if args.elites > args.samples {
        return Err("--elites must be <= --samples");
    }
    if args.control_stride == 0 {
        return Err("--control-stride must be greater than zero");
    }
    if args.control_stride > args.horizon {
        return Err("--control-stride must be <= --horizon");
    }
    if !args.next_gate_weight.is_non_negative() {
        return Err("--next-gate-weight must be finite and non-negative");
    }
    if !args.min_altitude.is_finite() {
        return Err("--min-altitude must be finite");
    }
    if !args.max_speed.is_positive() {
        return Err("--max-speed must be finite and greater than zero");
    }
    Ok(())
}

/// Settings are accepted exactly where each of them is in its range.
pub proof fn law_accepted_settings_are_in_range(args: CheckedArgs)
    ensures
        args.refusal() is None <==> {
            &&& args.history_steps > 0
            &&& 0 < args.control_stride <= args.horizon
            &&& 2 <= args.elites <= args.samples
            &&& args.next_gate_weight.non_negative()
            &&& args.min_altitude.finite()
            &&& args.max_speed.positive()
        },
{
}

/// The data set that is planned on by default.
pub fn default_dataset_dir(home: Option<&str>) -> (path: String)
    ensures
        path@ == stored(home, "le-wm-nv-data"@, "drone-racing-autonomous-100hz"@),
{
    stored_dir(home, "le-wm-nv-data", "drone-racing-autonomous-100hz")
}

/// The weights that are planned with by default.
pub fn default_weights(home: Option<&str>) -> (path: String)
    ensures
        path@ == joined(
            stored(home, "le-wm-nv-runs"@, "drone-state-lewm-autonomous-100hz"@),
            "latest.safetensors"@,
        ),
{
    let run = stored_dir(home, "le-wm-nv-runs", "drone-state-lewm-autonomous-100hz");
    join(run.as_str(), "latest.safetensors")
}

/// The model configuration that is planned with by default.
pub fn default_config(home: Option<&str>) -> (path: String)
    ensures
        path@ == joined(
            stored(home, "le-wm-nv-runs"@, "drone-state-lewm-autonomous-100hz"@),
            "model-config.json"@,
        ),
{
    let run = stored_dir(home, "le-wm-nv-runs", "drone-state-lewm-autonomous-100hz");
    join(run.as_str(), "model-config.json")
}

/// The report that is written by default.
pub fn default_output(home: Option<&str>) -> (path: String)
    ensures
        path@ == joined(
            stored(home, "le-wm-nv-reports"@, "drone-state-lewm-autonomous-100hz"@),
            "gate-plan.json"@,
        ),
{
    let reports = stored_dir(home, "le-wm-nv-reports", "drone-state-lewm-autonomous-100hz");
    join(reports.as_str(), "gate-plan.json")
}

} // verus!
