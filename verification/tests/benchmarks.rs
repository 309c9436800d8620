use lewm_tools::bench_drone_closed_loop;
use lewm_tools::bench_drone_rollout::{
    deterministic_action_batch, timing_picks, validate_args, CheckedArgs, Perturbation, TimingPicks,
};
use lewm_tools::bench_skyjepa::{
    bench_failures, plan_timing, report_counts, scenario_plan, BenchFailure, ControllerMode, Dynamics,
    PlanTiming, ReferenceKind, ScenarioFailure, ScenarioLimits, ScenarioMeasures, ScenarioOutcome,
    ScenarioRun, StepEvent,
};
use lewm_tools::order::Score;
use lewm_tools::probe_drone_actions::{
    action_name, build_cases, check_deltas, delta_range, probed_row, summarize_dimensions, ActionCase,
    DimensionEnds,
};
use lewm_tools::ranking::item_at_rank;
use lewm_tools::rng::{mix_seed, XorShift64};
use lewm_tools::rollout_shapes::{
    bounded_below_by_zero, check_action_mean, future_steps, history_action_prefix, prefix_fits,
    PrefixError,
};
use lewm_tools::sim_skyjepa::{self, ControlStep, SimulationRun};

#[test]
fn scenarios_fly_every_path_in_every_domain() {
    let plan = scenario_plan(2, 9001);
    assert_eq!(plan.len(), 9);
    assert_eq!(plan[0].domain_seed, None);
    assert_eq!(plan[1].domain_seed, Some(mix_seed(9001, 0)));
    assert_eq!(plan[2].domain_seed, Some(mix_seed(9001, 1)));
    assert_eq!(plan[0].reference, ReferenceKind::Hover);
    assert_eq!(plan[8].reference, ReferenceKind::FigureEight);
    assert_eq!(ControllerMode::UntrainedMppi.dynamics(), Dynamics::Untrained);
}

fn measures() -> ScenarioMeasures {
    ScenarioMeasures {
        position_rmse_m: Score::Key(1),
        maximum_position_error_m: Score::Key(1),
        p95_plan_ms: Score::Key(1),
    }
}

fn limits() -> ScenarioLimits {
    ScenarioLimits {
        max_position_rmse_m: Score::Key(2),
        max_position_error_m: Score::Key(2),
        max_p95_plan_ms: Score::Key(2),
    }
}

fn event(timing: PlanTiming) -> StepEvent {
    StepEvent { timing, low_rotors: 1, high_rotors: 0, ground_contact: false, finite: true }
}

#[test]
fn a_scenario_that_runs_through_passes() {
    let timing = plan_timing(Score::Key(3), Score::Key(2), Score::Key(5));
    assert_eq!(timing, PlanTiming { over_budget: true, over_deadline: false });
    let mut run = ScenarioRun::new(2);
    while run.is_running() {
        run.stepped(&event(timing));
    }
    assert_eq!((run.completed_steps, run.low_actions), (2, 2));
    assert_eq!(run.planning_budget_exceedances, 2);
    let verdict = run.judge(&measures(), &limits());
    assert!(verdict.complete && verdict.tracking_passed);
}

#[test]
fn a_scenario_that_ends_early_fails() {
    let timing = plan_timing(Score::Key(1), Score::Key(2), Score::Key(5));
    let mut run = ScenarioRun::new(3);
    run.stepped(&event(timing));
    run.plan_failed(timing);
    assert!(!run.is_running());
    assert_eq!(run.failure, Some(ScenarioFailure::Planning { step: 1 }));
    assert!(!run.judge(&measures(), &limits()).passed);
    let mut run = ScenarioRun::new(3);
    run.stepped(&StepEvent { finite: false, ..event(timing) });
    assert_eq!(run.failure, Some(ScenarioFailure::NonFinite { step: 0 }));
    assert!(!run.judge(&measures(), &limits()).passed);
}

#[test]
fn benchmark_failures_are_counted() {
    let good = ScenarioOutcome {
        randomized: false,
        all_steps: true,
        tracking_passed: true,
        timing_passed: true,
        passed: true,
    };
    let bad = ScenarioOutcome { tracking_passed: false, passed: false, ..good };
    let counts = report_counts(&vec![good, bad, ScenarioOutcome { randomized: true, ..bad }]);
    assert_eq!((counts.successful_runs, counts.nominal_failures), (1, 1));
    assert_eq!(counts.completed_runs, 3);
    assert_eq!(
        bench_failures(1, Score::Key(1), Score::Key(2), Score::Key(3), Score::Key(2)),
        vec![BenchFailure::Nominal(1), BenchFailure::SuccessRate, BenchFailure::PlanningTime]
    );
    assert_eq!(
        bench_failures(0, Score::Key(2), Score::Key(2), Score::Key(2), Score::Key(2)),
        vec![]
    );
}

#[test]
fn the_action_batch_is_fixed() {
    let batch = deterministic_action_batch(2, 3);
    assert_eq!(batch.len(), 24);
    assert!(batch[..12].iter().all(|entry| *entry == Perturbation::Baseline));
    let mut rng = XorShift64::new(0x9e37_79b9_7f4a_7c15);
    let bits = (0..24).map(|_| rng.next_bits24()).collect::<Vec<_>>();
    assert_eq!(batch[12], Perturbation::Noise(bits[12]));
    assert_eq!(batch[23], Perturbation::Noise(bits[23]));
    assert_eq!(deterministic_action_batch(3, 3)[..24], batch[..]);
}

#[test]
fn timings_are_picked_by_rank() {
    let keys = vec![30, 10, 20, 40];
    assert_eq!(timing_picks(&keys, 2, 9), TimingPicks { min: 1, p50: 0, p90: 3, max: 3 });
    let args = CheckedArgs {
        history_steps: 8,
        horizon: 40,
        samples: 528,
        iterations: 10,
        action_scale: Score::Key(0x7ff0_0000_0000_0000),
    };
    assert_eq!(validate_args(&args), Ok(()));
    assert_eq!(
        validate_args(&CheckedArgs { action_scale: Score::NotANumber, ..args }),
        Err("--action-scale must be zero or greater")
    );
    assert_eq!(
        validate_args(&CheckedArgs { history_steps: 1, ..args }),
        Err("--history-steps must be at least two")
    );
}

#[test]
fn closed_loop_tasks_have_their_targets() {
    let tasks = bench_drone_closed_loop::default_tasks();
    let names = tasks.iter().map(|task| task.name).collect::<Vec<_>>();
    assert_eq!(names, vec!["hold", "body_x", "body_y", "body_z", "yaw_z"]);
    let body_y = bench_drone_closed_loop::target_vectors(tasks[2].target, 0.0f32, 0.75, 0.35);
    assert_eq!((body_y.position, body_y.rotation), ([0.0, 0.75, 0.0], [0.0; 3]));
    let yaw = bench_drone_closed_loop::target_vectors(tasks[4].target, 0.0f32, 0.75, 0.35);
    assert_eq!((yaw.position, yaw.rotation), ([0.0; 3], [0.0, 0.0, 0.35]));
    assert_eq!(bench_drone_closed_loop::task_seed(11, 2), 2017);
    assert_eq!(bench_drone_closed_loop::start_row(None, 8, 50000), Ok(40847));
    assert_eq!(bench_drone_closed_loop::start_row(Some(5), 8, 13), Err(5));
    assert_eq!(bench_drone_closed_loop::smoothness_pairs(1), None);
    assert_eq!(bench_drone_closed_loop::smoothness_pairs(40), Some(39));
}

#[test]
fn closed_loop_tasks_count_their_iterations() {
    let mut run = bench_drone_closed_loop::TaskRun::new(3);
    while let Some(step) = run.next() {
        run.executed(step + 1);
    }
    assert_eq!((run.steps_done, run.total_iterations), (3, 6));
    let mut run = bench_drone_closed_loop::TaskRun::new(usize::MAX);
    run.executed(usize::MAX);
    assert_eq!((run.next(), run.total_iterations), (Some(1), usize::MAX));
    let args = bench_drone_closed_loop::CheckedArgs {
        history_steps: 8,
        horizon: 40,
        samples: 128,
        elites: 32,
        keep_elites: 33,
        iterations: 2,
        loop_steps: 40,
    };
    assert_eq!(
        bench_drone_closed_loop::validate_args(&args),
        Err("--keep-elites must be <= --elites")
    );
}

#[test]
fn every_component_is_swept() {
    let cases = build_cases(3);
    assert_eq!(cases.len(), 13);
    assert_eq!(cases[0], ActionCase::Baseline);
    assert_eq!(cases[6], ActionCase::Sweep { dim: 1, index: 2 });
    let ends = summarize_dimensions(&cases, 3);
    assert_eq!(ends.len(), 4);
    assert_eq!(ends[3], DimensionEnds { dim: 3, low: 10, high: 12 });
    assert_eq!(summarize_dimensions(&cases[..12].to_vec(), 3).len(), 3);
    assert_eq!(action_name(2), "throttle");
    assert_eq!(check_deltas(13, 80, 13 * 80 * 13), Ok(()));
    assert_eq!(check_deltas(1, 2, 3), Err(26));
    assert_eq!(delta_range(1, 2, 3, 80), (82 * 13, 83 * 13));
    assert_eq!(probed_row(None, &[9, 8]), 9);
    assert_eq!(probed_row(None, &[]), 0);
}

#[test]
fn prefixes_fit_their_history() {
    assert_eq!(history_action_prefix(1, 59, 4, 8), Ok(7));
    assert!(prefix_fits(7, 4, 8));
    assert!(!prefix_fits(8, 4, 8));
    assert_eq!(history_action_prefix(1, 59, 4, 1), Err(PrefixError::ShortHistory));
    assert_eq!(history_action_prefix(2, 59, 4, 8), Err(PrefixError::Batch));
    assert_eq!(
        history_action_prefix(1, 5, 4, 8),
        Err(PrefixError::Time { time: 5, expected: 8 })
    );
    assert_eq!(
        history_action_prefix(1, 59, 3, 8),
        Err(PrefixError::ActionDim { action_dim: 3 })
    );
    assert_eq!(future_steps(8, 40), (8, 48));
    assert_eq!(check_action_mean(3), Err(3));
    assert!(bounded_below_by_zero(2) && !bounded_below_by_zero(3));
}

#[test]
fn simulations_stop_where_the_state_is_lost() {
    let mut run = SimulationRun::new(3);
    assert_eq!(run.next(), Some(ControlStep { step: 0, with_prediction: true }));
    assert_eq!(run.stepped(&vec![Score::Key(0)], true), Ok(()));
    assert_eq!(run.next(), Some(ControlStep { step: 1, with_prediction: false }));
    assert_eq!(run.stepped(&vec![], false), Err(1));
    assert_eq!(run.next(), None);
    assert!(run.ground_contact);
    assert_eq!(sim_skyjepa::steady_from(5), 1);
    assert_eq!(sim_skyjepa::steady_from(1), 0);
    let args = sim_skyjepa::CheckedArgs {
        control_steps: 400,
        samples: 512,
        horizon: 15,
        simulation_rate_hz: 210,
        radius_m: Score::Key(1),
        period_seconds: Score::Key(1),
    };
    assert_eq!(
        sim_skyjepa::validate_args(&args),
        Err("simulation_rate_hz must be a positive multiple of the 20 Hz model rate")
    );
}

#[test]
fn ranks_and_rotor_counts() {
    let keys = vec![5, -2, 9, -2];
    assert_eq!(item_at_rank(&keys, 0), 1);
    assert_eq!(item_at_rank(&keys, 1), 3);
    assert_eq!(item_at_rank(&keys, 3), 2);
    let mut run = ScenarioRun::new(2);
    assert_eq!(run.action_count(), 1);
    run.stepped(&StepEvent {
        timing: PlanTiming { over_budget: false, over_deadline: false },
        low_rotors: 0,
        high_rotors: 4,
        ground_contact: false,
        finite: true,
    });
    assert_eq!(run.action_count(), 4);
}

#[test]
fn steps_are_observed_by_forces_and_heights() {
    let timing = PlanTiming { over_budget: false, over_deadline: true };
    let newton = 0x3ff0_0000_0000_0000;
    let forces = [Score::Key(0), Score::Key(newton), Score::NotANumber, Score::Key(2 * newton)];
    let event = StepEvent::observed(timing, &forces, Score::Key(newton), &vec![], true);
    assert_eq!((event.low_rotors, event.high_rotors), (1, 2));
    assert!(!event.ground_contact && event.finite && event.timing.over_deadline);
    let heights = vec![Score::Key(newton), Score::Key(0x3faa_0000_0000_0000)];
    assert!(StepEvent::observed(timing, &forces, Score::Key(newton), &heights, true).ground_contact);
}
