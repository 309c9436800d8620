//! Sensitivity of a world model to the components of the action.

use crate::paths::{join, joined, stored, stored_dir};
use crate::plan_drone_gates::delta_offset;
use crate::rollout_shapes::{ACTION_DIM, STATE_DELTA_DIM};
use vstd::arithmetic::div_mod::lemma_fundamental_div_mod_converse;
use vstd::prelude::*;

verus! {

/// Checks the settings of the command line, in order.
pub fn validate_args(history_steps: usize, horizon: usize, sweep_steps: usize) -> (result: Result<
    (),
    &'static str,
>)
    ensures
        match result {
            Ok(()) => history_steps >= 2 && horizon > 0 && sweep_steps >= 2,
            Err(message) => if history_steps < 2 {
                message@ == "--history-steps must be at least two"@
            } else if horizon == 0 {
                message@ == "--horizon must be greater than zero"@
            } else {
                sweep_steps < 2 && message@ == "--sweep-steps must be at least two"@
            },
        },
{
    if history_steps < 2 {
        return Err("--history-steps must be at least two");
    }
    if horizon == 0 {
        return Err("--horizon must be greater than zero");
    }
    if sweep_steps < 2 {
        return Err("--sweep-steps must be at least two");
    }
    Ok(())
}

/// The row that is probed: the requested one, else the first held-out one, else the first.
pub fn probed_row(requested: Option<usize>, eval_rows: &[usize]) -> (row: usize)
    ensures
        row == match requested {
            Some(given) => given,
            None => if eval_rows@.len() > 0 {
                eval_rows@[0]
            } else {
                0
            },
        },
{
    match requested {
        Some(row) => row,
        None => if eval_rows.len() > 0 {
            eval_rows[0]
        } else {
            0
        },
    }
}

/// The names of the components of an action.
pub open spec fn action_names() -> Seq<Seq<char>> {
    seq!["roll"@, "pitch"@, "throttle"@, "yaw"@]
}

/// Names a component of an action.
pub fn action_name(dim: usize) -> (name: &'static str)
    requires
        dim < ACTION_DIM,
    ensures
        name@ == action_names()[dim as int],
{
    if dim == 0 {
        "roll"
    } else if dim == 1 {
        "pitch"
    } else if dim == 2 {
        "throttle"
    } else {
        "yaw"
    }
}

/// An action that is tried.
#[derive(Clone, Copy, PartialEq, Eq, Structural, Debug)]
pub enum ActionCase {
    /// The mean action of the data.
    Baseline,
    /// The mean action with component `dim` set to step `index` of its sweep.
    Sweep { dim: usize, index: usize },
}

/// The case at a place of the list: the mean action, then the sweep of each component in turn.
pub open spec fn case_at(place: int, sweep_steps: int) -> ActionCase {
    if place == 0 {
        ActionCase::Baseline
    } else {
        ActionCase::Sweep {
            dim: ((place - 1) / sweep_steps) as usize,
            index: ((place - 1) % sweep_steps) as usize,
        }
    }
}

/// Lists the actions that are tried.
pub fn build_cases(sweep_steps: usize) -> (cases: Vec<ActionCase>)
    requires
        sweep_steps > 0,
    ensures
        cases@.len() == 1 + ACTION_DIM * sweep_steps,
        forall|place: int|
            0 <= place < cases@.len() ==> #[trigger] cases@[place] == case_at(
                place,
                sweep_steps as int,
            ),
{
    let mut cases: Vec<ActionCase> = Vec::new();
    cases.push(ActionCase::Baseline);
    let mut dim: usize = 0;
    while dim < ACTION_DIM
        invariant
            sweep_steps > 0,
            dim <= ACTION_DIM,
            cases@.len() == 1 + dim * sweep_steps,
            forall|place: int|
                0 <= place < cases@.len() ==> #[trigger] cases@[place] == case_at(
                    place,
                    sweep_steps as int,
                ),
        decreases ACTION_DIM - dim,
    {
        let mut index: usize = 0;
        while index < sweep_steps
            invariant
                sweep_steps > 0,
                index <= sweep_steps,
                cases@.len() == 1 + dim * sweep_steps + index,
                forall|place: int|
                    0 <= place < cases@.len() ==> #[trigger] cases@[place] == case_at(
                        place,
                        sweep_steps as int,
                    ),
            decreases sweep_steps - index,
        {
            proof {
                lemma_fundamental_div_mod_converse(
                    dim * sweep_steps + index,
                    sweep_steps as int,
                    dim as int,
                    index as int,
                );
            }
            cases.push(ActionCase::Sweep { dim, index });
            index = index + 1;
        }
        assert((dim + 1) * sweep_steps == dim * sweep_steps + sweep_steps) by (nonlinear_arith);
        dim = dim + 1;
    }
    cases
}

/// The component that a case sweeps.
pub open spec fn swept(case: ActionCase) -> Option<usize> {
    match case {
        ActionCase::Baseline => None,
        ActionCase::Sweep { dim, .. } => Some(dim),
    }
}

/// The ends of the sweep of one component: the places of its first and its last case.
#[derive(Clone, Copy, PartialEq, Eq, Structural, Debug)]
pub struct DimensionEnds {
    pub dim: usize,
    pub low: usize,
    pub high: usize,
}

/// The places among the first `count` of the cases that sweep a component.
pub open spec fn places_of(cases: Seq<ActionCase>, dim: usize, count: int) -> Seq<usize>
    decreases count,
{
    if count <= 0 {
        Seq::empty()
    } else {
        let before = places_of(cases, dim, count - 1);
        if swept(cases[count - 1]) == Some(dim) {
            before.push((count - 1) as usize)
        } else {
            before
        }
    }
}

/// The ends of the sweeps of the first `count` components, those left out that have not all their
/// cases.
pub open spec fn summary_of(
    cases: Seq<ActionCase>,
    sweep_steps: int,
    count: int,
) -> Seq<DimensionEnds>
    decreases count,
{
    if count <= 0 {
        Seq::empty()
    } else {
        let before = summary_of(cases, sweep_steps, count - 1);
        let dim = (count - 1) as usize;
        let places = places_of(cases, dim, cases.len() as int);
        if places.len() == sweep_steps {
            before.push(DimensionEnds { dim, low: places.first(), high: places.last() })
        } else {
            before
        }
    }
}

/// Finds the ends of the sweep of each component.
pub fn summarize_dimensions(cases: &Vec<ActionCase>, sweep_steps: usize) -> (summaries: Vec<
    DimensionEnds,
>)
    requires
        sweep_steps > 0,
    ensures
        summaries@ == summary_of(cases@, sweep_steps as int, ACTION_DIM as int),
{
    let mut summaries: Vec<DimensionEnds> = Vec::new();
    let mut dim: usize = 0;
    while dim < ACTION_DIM
        invariant
            sweep_steps > 0,
            dim <= ACTION_DIM,
            summaries@ == summary_of(cases@, sweep_steps as int, dim as int),
        decreases ACTION_DIM - dim,
    {
        let mut places: Vec<usize> = Vec::new();
        let mut next: usize = 0;
        while next < cases.len()
            invariant
                next <= cases@.len(),
                places@ == places_of(cases@, dim, next as int),
            decreases cases@.len() - next,
        {
            if let ActionCase::Sweep { dim: own, .. } = cases[next] {
                if own == dim {
                    places.push(next);
                }
            }
            next = next + 1;
        }
        if places.len() == sweep_steps {
            summaries.push(
                DimensionEnds { dim, low: places[0], high: places[places.len() - 1] },
            );
        }
        dim = dim + 1;
    }
    summaries
}

/// `cases` is the list of the actions that are tried.
pub open spec fn full_cases(cases: Seq<ActionCase>, sweep_steps: int) -> bool {
    &&& cases.len() == 1 + ACTION_DIM * sweep_steps
    &&& forall|place: int|
        0 <= place < cases.len() ==> #[trigger] cases[place] == case_at(place, sweep_steps)
}

proof fn lemma_places(cases: Seq<ActionCase>, sweep_steps: int, dim: int, count: int)
    requires
        sweep_steps > 0,
        full_cases(cases, sweep_steps),
        cases.len() <= usize::MAX,
        0 <= dim < ACTION_DIM,
        0 <= count <= cases.len(),
    ensures
        ({
            let start = 1 + dim * sweep_steps;
            let found = if count <= start {
                0
            } else if count <= start + sweep_steps {
                count - start
            } else {
                sweep_steps
            };
            &&& places_of(cases, dim as usize, count).len() == found
            &&& forall|i: int|
                0 <= i < found ==> #[trigger] places_of(cases, dim as usize, count)[i] == start + i
        }),
    decreases count,
{
    let start = 1 + dim * sweep_steps;
    assert(start >= 1) by (nonlinear_arith)
        requires
            start == 1 + dim * sweep_steps,
            dim >= 0,
            sweep_steps > 0,
    ;
    if count > 0 {
        lemma_places(cases, sweep_steps, dim, count - 1);
        let place = count - 1;
        if place > 0 {
            let own = (place - 1) / sweep_steps;
            let index = (place - 1) % sweep_steps;
            vstd::arithmetic::div_mod::lemma_fundamental_div_mod(place - 1, sweep_steps);
            vstd::arithmetic::div_mod::lemma_mod_bound(place - 1, sweep_steps);
            assert(place - 1 == own * sweep_steps + index) by (nonlinear_arith)
                requires
                    place - 1 == sweep_steps * own + index,
            ;
            assert(0 <= own <= place - 1) by (nonlinear_arith)
                requires
                    own == (place - 1) / sweep_steps,
                    place >= 1,
                    sweep_steps > 0,
            ;
            assert(own == dim <==> start <= place < start + sweep_steps) by (nonlinear_arith)
                requires
                    place - 1 == own * sweep_steps + index,
                    0 <= index < sweep_steps,
                    start == 1 + dim * sweep_steps,
            ;
        }
    }
}

/// Over the full list of cases every component is summarised, from the first to the last case of
/// its sweep.
pub proof fn law_every_component_is_summarised(
    cases: Seq<ActionCase>,
    sweep_steps: int,
    dim: int,
)
    requires
        sweep_steps > 0,
        full_cases(cases, sweep_steps),
        cases.len() <= usize::MAX,
        0 <= dim < ACTION_DIM,
    ensures
        summary_of(cases, sweep_steps, ACTION_DIM as int).len() == ACTION_DIM,
        summary_of(cases, sweep_steps, ACTION_DIM as int)[dim] == (DimensionEnds {
            dim: dim as usize,
            low: (1 + dim * sweep_steps) as usize,
            high: (dim * sweep_steps + sweep_steps) as usize,
        }),
{
    lemma_summary(cases, sweep_steps, ACTION_DIM as int);
}

proof fn lemma_summary(cases: Seq<ActionCase>, sweep_steps: int, count: int)
    requires
        sweep_steps > 0,
        full_cases(cases, sweep_steps),
        cases.len() <= usize::MAX,
        0 <= count <= ACTION_DIM,
    ensures
        summary_of(cases, sweep_steps, count).len() == count,
        forall|dim: int|
            0 <= dim < count ==> #[trigger] summary_of(cases, sweep_steps, count)[dim] == (
            DimensionEnds {
                dim: dim as usize,
                low: (1 + dim * sweep_steps) as usize,
                high: (dim * sweep_steps + sweep_steps) as usize,
            }),
    decreases count,
{
    if count > 0 {
        lemma_summary(cases, sweep_steps, count - 1);
        let dim = count - 1;
        lemma_places(cases, sweep_steps, dim, cases.len() as int);
        let places = places_of(cases, dim as usize, cases.len() as int);
        assert(1 + dim * sweep_steps + sweep_steps <= cases.len() && dim * sweep_steps >= 0)
            by (nonlinear_arith)
            requires
                cases.len() == 1 + ACTION_DIM * sweep_steps,
                0 <= dim,
                dim + 1 <= ACTION_DIM,
                sweep_steps > 0,
        ;
        assert(places[0] == 1 + dim * sweep_steps);
        assert(places[sweep_steps - 1] == 1 + dim * sweep_steps + (sweep_steps - 1));
    }
}

/// Checks that the predicted changes of state are those of all cases and steps; the error gives the
/// number that was expected.
pub fn check_deltas(cases: usize, horizon: usize, values: usize) -> (result: Result<(), usize>)
    requires
        cases * horizon * STATE_DELTA_DIM <= usize::MAX,
        cases * horizon <= usize::MAX,
    ensures
        result == if values == cases * horizon * STATE_DELTA_DIM {
            Ok::<(), usize>(())
        } else {
            Err::<(), usize>((cases * horizon * STATE_DELTA_DIM) as usize)
        },
{
    let expected: usize = cases * horizon * STATE_DELTA_DIM;
    if values == expected {
        Ok(())
    } else {
        Err(expected)
    }
}

/// Finds the predicted change of state of a case at a step.
pub fn delta_range(case: usize, step: usize, cases: usize, horizon: usize) -> (range: (usize, usize))
    requires
        case < cases,
        step < horizon,
        cases * horizon * STATE_DELTA_DIM <= usize::MAX,
    ensures
        range.0 == delta_offset(case as int, step as int, horizon as int, STATE_DELTA_DIM as int),
        range.1 == range.0 + STATE_DELTA_DIM,
        range.1 <= cases * horizon * STATE_DELTA_DIM,
{
    let ghost place = case * horizon + step;
    proof {
        assert(0 <= case * horizon <= place && place + 1 <= cases * horizon) by (nonlinear_arith)
            requires
                case < cases,
                step < horizon,
                place == case * horizon + step,
        ;
    }
    let start: usize = (case * horizon + step) * STATE_DELTA_DIM;
    (start, start + STATE_DELTA_DIM)
}

/// The data set that is probed by default.
pub fn default_dataset_dir(home: Option<&str>) -> (path: String)
    ensures
        path@ == stored(home, "le-wm-nv-data"@, "drone-racing-autonomous-100hz"@),
{
    stored_dir(home, "le-wm-nv-data", "drone-racing-autonomous-100hz")
}

/// The weights that are probed by default.
pub fn default_weights(home: Option<&str>) -> (path: String)
    ensures
        path@ == joined(
            stored(home, "le-wm-nv-runs"@, "drone-state-lewm-autonomous-100hz"@),
            "latest.safetensors"@,
        ),
{
    crate::eval_drone::default_weights(home)
}

/// The model's configuration that is read by default.
pub fn default_config(home: Option<&str>) -> (path: String)
    ensures
        path@ == joined(
            stored(home, "le-wm-nv-runs"@, "drone-state-lewm-autonomous-100hz"@),
            "model-config.json"@,
        ),
{
    crate::eval_drone::default_config(home)
}

/// The file that the report is written to by default.
pub fn default_output(home: Option<&str>) -> (path: String)
    ensures
        path@ == joined(
            stored(home, "le-wm-nv-reports"@, "drone-state-lewm-autonomous-100hz"@),
            "action-sensitivity.json"@,
        ),
{
    join(
        stored_dir(home, "le-wm-nv-reports", "drone-state-lewm-autonomous-100hz").as_str(),
        "action-sensitivity.json",
    )
}

/// The first case is the baseline; behind it each component in turn is swept from end to end.
pub proof fn law_components_are_swept_in_turn(sweep_steps: int, dim: int, index: int)
    requires
        0 <= dim <= usize::MAX,
        0 <= index < sweep_steps <= usize::MAX,
    ensures
        case_at(0, sweep_steps) == ActionCase::Baseline,
        case_at(1 + dim * sweep_steps + index, sweep_steps) == (ActionCase::Sweep {
            dim: dim as usize,
            index: index as usize,
        }),
{
    let place = dim * sweep_steps + index;
    assert(dim * sweep_steps >= 0) by (nonlinear_arith)
        requires
            0 <= dim,
            0 < sweep_steps,
    ;
    lemma_fundamental_div_mod_converse(place, sweep_steps, dim, index);
}

/// The places of a component are those of the cases that sweep it, in ascending order and no other.
#[verifier::spinoff_prover]
pub proof fn law_places_are_those_of_the_component(
    cases: Seq<ActionCase>,
    dim: usize,
    count: int,
)
    requires
        0 <= count <= cases.len() <= usize::MAX,
    ensures
        forall|place: usize| #[trigger]
            places_of(cases, dim, count).contains(place) <==> place < count && (
            cases[place as int] matches ActionCase::Sweep { dim: own, .. } && own == dim),
        forall|i: int, j: int|
            0 <= i < j < places_of(cases, dim, count).len() ==> #[trigger] places_of(
                cases,
                dim,
                count,
            )[i] < #[trigger] places_of(cases, dim, count)[j],
    decreases count,
{
    if count > 0 {
        law_places_are_those_of_the_component(cases, dim, count - 1);
        let before = places_of(cases, dim, count - 1);
        let all = places_of(cases, dim, count);
        assert forall|place: usize| #[trigger] all.contains(place) <==> place < count && (
        cases[place as int] matches ActionCase::Sweep { dim: own, .. } && own == dim) by {
            assert(before.contains(place) <==> place < count - 1 && (cases[place as int] matches
                ActionCase::Sweep { dim: own, .. } && own == dim));
            if before.contains(place) {
                let at = choose|i: int| 0 <= i < before.len() && before[i] == place;
                assert(all[at] == place);
            }
            if all.contains(place) && !before.contains(place) {
                let at = choose|i: int| 0 <= i < all.len() && all[i] == place;
                assert(at < before.len() ==> before[at] == place);
            }
            if place == count - 1 && swept(cases[count - 1]) == Some(dim) {
                assert(all[all.len() - 1] == place);
            }
        }
        assert forall|i: int, j: int| 0 <= i < j < all.len() implies #[trigger] all[i]
            < #[trigger] all[j] by {
            if j == before.len() {
                assert(before.contains(before[i]));
            }
        }
    }
}

/// The four components are roll, pitch, throttle and yaw, in this order.
pub proof fn law_components_have_their_names()
    ensures
        action_names() == seq!["roll"@, "pitch"@, "throttle"@, "yaw"@],
        ACTION_DIM == 4,
{
}

} // verus!
