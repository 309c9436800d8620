use lewm_tools::drone_sim::{axis, obs16, press, takes_step, ActionKeys};
use lewm_tools::bench_skyjepa::ReferenceKind;
use lewm_tools::order::Score;
use lewm_tools::plan_drone_gates::{
    advance_window, best_indices, candidate_shape, check_advance, first_scored_step, gate_passed,
    next_frame_index, next_gate_in_flight, planning_horizon, score_launch, select_flight,
    select_gate, select_next_gate, validate_args, AdvanceError, AdvanceWindow, CheckedArgs,
    GateCrossing, GateError, GateLoop, LoopSettings, ScoreInputs, ScoreLaunch, ShapeError,
};
use lewm_tools::recent::push_recent;
use lewm_tools::skyjepa_drone_sim::{substeps, SimControl, SimKeys, SimOrders};
use lewm_tools::viewer::{
    action_at_frame, active_gate, active_replan, gate_label, is_major_line, marker_frame,
    reference_lines, shown_action, to_view, view_columns, Playback, PlaybackKeys, ReferenceLines,
};

fn metres(value: f64) -> Score {
    let magnitude = (value.to_bits() & 0x7fff_ffff_ffff_ffff) as i64;
    Score::Key(if value < 0.0 { -magnitude } else { magnitude })
}

#[test]
fn flights_and_gates_are_found() {
    assert_eq!(select_flight(&[4, 5], 5), Ok(1));
    assert_eq!(select_flight(&[4, 5], 9), Ok(0));
    assert_eq!(select_gate(&[4, 5], &[2, 3], 5, 2), Ok((1, 2)));
    assert_eq!(
        select_gate(&[4, 5], &[2, 3], 4, 2),
        Err(GateError::NoGate { flight: 0, gate_index: 2 })
    );
    assert_eq!(select_gate(&[], &[], 4, 2), Err(GateError::NoFlights));
    assert_eq!(next_gate_in_flight(3, 2), Some(0));
    assert_eq!(next_gate_in_flight(0, 2), None);
    assert_eq!(select_next_gate(&[4], &[2], 4, 1), Ok((0, 0)));
}

#[test]
fn a_lap_takes_all_gates_in_order() {
    let settings =
        LoopSettings { gates: 3, loop_steps: 100, control_stride: 4, laps: 1, samples: 10 };
    let mut gate_loop = GateLoop::start(settings, 4).unwrap();
    assert_eq!(gate_loop.gate_index, 1);
    let mut taken = Vec::new();
    while gate_loop.is_unfinished() {
        let stride = gate_loop.stride(8);
        assert_eq!(stride, 4);
        let record = gate_loop.advance(8, 2, true);
        taken.push(record.gate_index);
        assert_eq!(record.candidate_sequences_scored, 20);
    }
    assert_eq!(taken, vec![1, 2]);
    assert_eq!(gate_loop.completed_laps, 1);
    assert_eq!(gate_loop.candidate_sequences_scored, 40);
}

#[test]
fn the_loop_ends_with_its_steps() {
    let settings =
        LoopSettings { gates: 2, loop_steps: 10, control_stride: 4, laps: 0, samples: 1 };
    let mut gate_loop = GateLoop::start(settings, 0).unwrap();
    let mut strides = Vec::new();
    while gate_loop.is_unfinished() {
        strides.push(gate_loop.stride(3));
        gate_loop.advance(3, 1, false);
    }
    assert_eq!(strides, vec![3, 3, 3, 1]);
    let empty = LoopSettings { gates: 0, ..settings };
    assert_eq!(GateLoop::start(empty, 0).unwrap_err(), "selected flight has no gates");
}

#[test]
fn gates_are_passed_through_the_opening() {
    let through = GateCrossing {
        plane_before: metres(-0.5),
        plane_after: metres(0.5),
        lateral: metres(1.0),
        lateral_limit: metres(1.0),
        vertical: metres(0.2),
        vertical_limit: metres(1.0),
        center_distance: metres(1.1),
        center_limit: metres(0.8),
    };
    assert!(gate_passed(&through));
    assert!(!gate_passed(&GateCrossing { lateral: metres(1.5), ..through }));
    assert!(!gate_passed(&GateCrossing { plane_before: metres(0.25), ..through }));
    assert!(gate_passed(&GateCrossing { plane_before: metres(0.2), ..through }));
    assert!(gate_passed(&GateCrossing {
        plane_before: metres(0.5),
        lateral: metres(1.5),
        center_distance: metres(0.7),
        ..through
    }));
    assert!(gate_passed(&GateCrossing { plane_before: Score::NotANumber, ..through }));
    assert!(!gate_passed(&GateCrossing { lateral: Score::NotANumber, ..through }));
}

#[test]
fn windows_of_an_advance_keep_the_history() {
    assert_eq!(check_advance(2, 1, 5, 4, 4), Ok(()));
    assert_eq!(check_advance(0, 1, 5, 4, 4), Err(AdvanceError::NoSteps));
    assert_eq!(check_advance(2, 2, 5, 4, 4), Err(AdvanceError::NotSingleBatch));
    assert_eq!(check_advance(2, 1, 5, 3, 4), Err(AdvanceError::ActionDim(3)));
    assert_eq!(check_advance(6, 1, 5, 4, 4), Err(AdvanceError::ShortPlan));
    assert_eq!(
        advance_window(2, 8, 10),
        Ok(AdvanceWindow {
            predicted_start: 8,
            predicted_end: 10,
            history_start: 2,
            history_end: 10,
        })
    );
    assert_eq!(advance_window(3, 8, 10), Err(AdvanceError::ShortRollout));
    assert_eq!(next_frame_index(3, 9), (4, 10));
    assert_eq!(next_frame_index(usize::MAX, 9), (usize::MAX, 10));
}

#[test]
fn shapes_and_launches_fit_the_candidates() {
    assert_eq!(candidate_shape(&[1, 7, 5, 4], 4), Ok((7, 5)));
    assert_eq!(candidate_shape(&[7, 5, 4], 4), Err(ShapeError::Rank));
    assert_eq!(candidate_shape(&[2, 7, 5, 4], 4), Err(ShapeError::Extent));
    assert_eq!(first_scored_step(8, 20), 8);
    assert_eq!(first_scored_step(8, 5), 4);
    let inputs = ScoreInputs {
        deltas_on_device: true,
        candidates_on_device: true,
        action_dim: 4,
        samples: 129,
        rollout_time: 20,
        history_steps: 8,
        next_gate: true,
        next_gate_weight: Score::Key(0),
    };
    assert_eq!(
        score_launch(&inputs, 4),
        Ok(Some(ScoreLaunch { grid: 2, start_step: 8, has_next_gate: false }))
    );
    assert_eq!(score_launch(&ScoreInputs { deltas_on_device: false, ..inputs }, 4), Ok(None));
    assert_eq!(score_launch(&ScoreInputs { action_dim: 3, ..inputs }, 4), Err(3));
    assert_eq!(best_indices(&vec![vec![2, 0], vec![1]]), Ok(vec![2, 1]));
    assert_eq!(best_indices(&vec![vec![2], vec![]]), Err(1));
    assert_eq!(planning_horizon(3, 8), 8);
}

#[test]
fn planning_settings_are_checked_in_order() {
    let sound = CheckedArgs {
        history_steps: 8,
        horizon: 20,
        samples: 64,
        elites: 8,
        control_stride: 5,
        next_gate_weight: Score::Key(0),
        min_altitude: Score::Key(-5),
        max_speed: Score::Key(5),
    };
    assert_eq!(validate_args(&sound), Ok(()));
    let elites = CheckedArgs { elites: 65, ..sound };
    assert_eq!(validate_args(&elites), Err("--elites must be <= --samples"));
    let stride = CheckedArgs { control_stride: 21, ..elites };
    assert_eq!(validate_args(&stride), Err("--elites must be <= --samples"));
    let stride = CheckedArgs { elites: 8, ..stride };
    assert_eq!(validate_args(&stride), Err("--control-stride must be <= --horizon"));
    let speed = CheckedArgs { control_stride: 5, max_speed: Score::NotANumber, ..stride };
    assert_eq!(validate_args(&speed), Err("--max-speed must be finite and greater than zero"));
}

#[test]
fn playback_stays_in_the_replay() {
    let mut playback = Playback::new(3);
    let forward = PlaybackKeys { toggle: false, forward: true, back: false };
    playback.controls(forward);
    playback.controls(forward);
    playback.controls(forward);
    assert_eq!(playback.frame, 2);
    playback.advance();
    assert_eq!(playback.frame, 0);
    playback.controls(PlaybackKeys { toggle: true, forward: false, back: true });
    assert_eq!((playback.frame, playback.playing), (0, false));
    let mut empty = Playback::new(0);
    empty.controls(forward);
    empty.advance();
    assert_eq!(empty.frame, 0);
}

#[test]
fn the_replan_in_force_reaches_the_frame() {
    let executed = vec![4, 8, 12];
    assert_eq!(active_replan(&executed, 0), Some(0));
    assert_eq!(active_replan(&executed, 4), Some(0));
    assert_eq!(active_replan(&executed, 5), Some(1));
    assert_eq!(active_replan(&executed, 50), Some(2));
    assert_eq!(active_replan(&vec![], 5), None);
    assert_eq!(active_gate(3, Some(2)), Some(2));
    assert_eq!(active_gate(3, Some(3)), Some(0));
    assert_eq!(active_gate(0, Some(0)), None);
    assert_eq!(action_at_frame(3, 7), Some(2));
    assert_eq!(action_at_frame(0, 7), None);
    assert_eq!(shown_action(3, 0), Some(0));
    assert_eq!(shown_action(3, 2), Some(1));
    assert_eq!(shown_action(3, 9), Some(2));
    assert_eq!(marker_frame(2, 9), Some(2));
    assert_eq!(marker_frame(20, 9), Some(8));
    assert_eq!(gate_label("", 4), "T4");
    assert_eq!(gate_label("north", 4), "north");
    assert_eq!(reference_lines(1, false), ReferenceLines { strip: false, closed: false });
    assert_eq!(reference_lines(1, true), ReferenceLines { strip: true, closed: false });
    assert_eq!(reference_lines(3, false), ReferenceLines { strip: true, closed: true });
    assert!(is_major_line(10) && !is_major_line(11));
}

#[test]
fn views_swap_the_last_two_axes() {
    assert_eq!(to_view([1, 2, 3]), [1, 3, 2]);
    assert_eq!(to_view(to_view([1, 2, 3])), [1, 2, 3]);
    let (first, second, third) = view_columns([11, 12, 13, 21, 22, 23, 31, 32, 33]);
    assert_eq!(first, [11, 31, 21]);
    assert_eq!(second, [13, 33, 23]);
    assert_eq!(third, [12, 32, 22]);
}

#[test]
fn keys_set_the_action() {
    let none = ActionKeys { reset: false, level: false, hover: false };
    assert_eq!(press(none, [1, 2, 3, 4], [5, 6, 7, 8], 0), [1, 2, 3, 4]);
    let level = ActionKeys { level: true, ..none };
    assert_eq!(press(level, [1, 2, 3, 4], [5, 6, 7, 8], 0), [0, 0, 3, 0]);
    let hover = ActionKeys { hover: true, ..none };
    assert_eq!(press(hover, [1, 2, 3, 4], [5, 6, 7, 8], 0), [1, 2, 7, 4]);
    let reset = ActionKeys { reset: true, ..none };
    assert_eq!(press(reset, [1, 2, 3, 4], [5, 6, 7, 8], 0), [5, 6, 7, 8]);
    assert_eq!((axis(true, false), axis(false, true), axis(true, true)), (-1, 1, 0));
    let obs = obs16([1, 2, 3], [4; 9], [5, 6, 7, 8]);
    assert_eq!(obs, vec![1, 2, 3, 4, 4, 4, 4, 4, 4, 4, 4, 4, 5, 6, 7, 8]);
}

#[test]
fn frames_take_a_bounded_number_of_steps() {
    let mut taken = 0;
    while takes_step(taken, 20, true) {
        taken += 1;
    }
    assert_eq!(taken, 20);
    assert!(!takes_step(0, 20, false));
}

#[test]
fn lists_keep_the_latest() {
    let mut list = Vec::new();
    for value in 0..5 {
        push_recent(&mut list, value, 3);
    }
    assert_eq!(list, vec![2, 3, 4]);
}

#[test]
fn keys_steer_the_skyjepa_simulation() {
    let mut control: SimControl<u32> = SimControl::new(ReferenceKind::Circle, u64::MAX);
    let none = SimKeys {
        pause: false,
        controller: false,
        hover: false,
        circle: false,
        figure_eight: false,
        reset: false,
        new_domain: false,
    };
    let orders = control.press(SimKeys { hover: true, figure_eight: true, ..none });
    assert_eq!(orders, SimOrders { reset: false, new_domain: None });
    assert_eq!(control.scenario, ReferenceKind::FigureEight);
    let orders = control.press(SimKeys { reset: true, new_domain: true, ..none });
    assert_eq!(orders, SimOrders { reset: true, new_domain: Some(0) });
    for time in 0..300 {
        assert!(control.planned(Ok(time)));
        control.stepped();
    }
    assert_eq!(control.plan_times.len(), 240);
    assert_eq!(control.plan_times[0], 60);
    assert_eq!(control.control_steps, 300);
    control.restarted(Ok(()));
    assert_eq!((control.control_steps, control.plan_times.len()), (0, 0));
    assert!(!control.paused);
    assert_eq!(control.last_error, None);
    assert!(!control.planned(Err("no plan".to_owned())));
    assert!(control.paused);
    assert_eq!(control.last_error.as_deref(), Some("no plan"));
    control.press(SimKeys { pause: true, controller: true, ..none });
    assert!(!control.paused && !control.controller_enabled);
    assert_eq!(control.last_error.as_deref(), Some("no plan"));
    assert!(control.planned(Err("not asked for".to_owned())));
    assert_eq!(control.last_error.as_deref(), Some("no plan"));
    control.restarted(Err("no plant".to_owned()));
    assert!(control.paused);
    assert_eq!(control.last_error.as_deref(), Some("no plant"));
    control.restarted(Ok(()));
    assert!(control.paused);
    assert_eq!(control.last_error, None);
    assert_eq!(substeps(200), 10);
}
