use lewm_tools::bench_drone_rollout::Perturbation;
use lewm_tools::drone_fit_plant::FrameIndex;
use lewm_tools::drone_oracle_eval::{
    drop_action_channel, ensure_stats_match, flat_action_values, horizon_frame, horizon_slot,
    max_horizon, noise_seed, parse_horizons, rows_for_source, select_rows, sequence_steps, validate_model_config,
    variant_names, HorizonError, ModelError, ObservationInput, RaggedError, RowSource, StatsComparison,
    StatsError,
};
use lewm_tools::drone_planner_eval::{
    check_closed_loop, closed_loop_seed, closed_loop_steps, future_length, parse_row_list, planner_seed, report_batch_count,
    shift_window, target_use, warm_start_use, ClosedLoop, ClosedLoopError, RowListError, TargetUse,
    TraceSlots, WarmStartMode, WarmStartShape, WarmStartUse,
};
use lewm_tools::drone_rollout_eval::{
    check_comparable, ensure_same_episode, rollout_window, sample_steps, CompareError,
    RolloutError, RolloutWindow, SampleRow,
};
use lewm_tools::eval_drone::{
    check_normalization, compared_frames, initial_observations, plan_prediction,
    replay_candidate_rows, replay_chunk_steps, replay_chunks, replay_periods, select_replay_row,
    ObservedFrame, PredictionPlan, ReplayChunk, ReplayError,
};
use lewm_tools::eval_drone_checkpoints::{
    discover_checkpoints, eval_batches, parse_checkpoint_step, replay_row_has_horizon, replay_rows,
    training_elapsed_by_step, training_final_step, validate_args, CheckedArgs, CheckpointFile,
    CheckpointInfo, JsonError,
};
use lewm_tools::eval_skyjepa::{
    check_sequence, plan_evaluation, rollout_slices, EvalSplit, RolloutSlices, SequenceSteps,
};
use lewm_tools::order::Score;

#[test]
fn horizons_are_sorted_and_unique() {
    assert_eq!(parse_horizons("5, 1,5"), Ok(vec![1, 5]));
    assert_eq!(parse_horizons("x"), Err(HorizonError::Invalid("x".to_string())));
    assert_eq!(parse_horizons(" , "), Err(HorizonError::Empty));
    assert_eq!(parse_horizons("0,1"), Err(HorizonError::Zero));
    assert_eq!(max_horizon(&vec![1, 5]), 5);
    assert_eq!(horizon_slot(&vec![1, 5], 5), Some(1));
    assert_eq!(horizon_slot(&vec![1, 5], 4), None);
    assert_eq!(horizon_frame(8, 1), 8);
}

#[test]
fn row_lists_and_sources_are_read() {
    assert_eq!(parse_row_list("4,2"), Ok(vec![4, 2]));
    assert_eq!(parse_row_list(","), Err(RowListError::Empty));
    assert_eq!(parse_row_list("2,b"), Err(RowListError::Invalid("b".to_string())));
    assert_eq!(rows_for_source("train"), Some(RowSource::Train));
    assert_eq!(rows_for_source("test"), None);
    assert_eq!(select_rows(vec![3, 4, 5], 2), Some(vec![3, 4]));
    assert_eq!(select_rows(vec![], 2), None);
    assert_eq!(sequence_steps(8, 5), Ok(13));
    assert!(sequence_steps(usize::MAX, 5).is_err());
}

#[test]
fn action_values_must_be_even() {
    let samples = vec![vec![vec![1, 2], vec![3, 4]], vec![vec![5, 6], vec![7, 8]]];
    let flat = flat_action_values(&samples, 2).unwrap();
    assert_eq!((flat.steps, flat.values), (2, vec![1, 2, 3, 4, 5, 6, 7, 8]));
    assert_eq!(
        flat_action_values(&vec![vec![vec![1], vec![2]], vec![vec![3]]], 1),
        Err(RaggedError::Steps { found: 1, expected: 2 })
    );
    assert_eq!(
        flat_action_values(&vec![vec![vec![1, 2], vec![3]]], 2),
        Err(RaggedError::Channels { found: 1 })
    );
    assert_eq!(
        drop_action_channel(&samples, 1, 0),
        vec![vec![vec![1, 0], vec![3, 0]], vec![vec![5, 0], vec![7, 0]]]
    );
    assert_eq!(noise_seed(5, 0), 5);
    assert!(variant_names().contains(&"expert".to_string()));
}

#[test]
fn statistics_and_models_must_match() {
    let same = StatsComparison {
        run_means: 4,
        run_stds: 4,
        dataset_means: 4,
        dataset_stds: 4,
        max_mean_delta: Score::Key(0),
        max_std_delta: Score::Key(0),
    };
    assert_eq!(ensure_stats_match(&same), Ok(()));
    assert_eq!(
        ensure_stats_match(&StatsComparison { run_stds: 3, ..same }),
        Err(StatsError::Dimensions)
    );
    assert_eq!(
        ensure_stats_match(&StatsComparison { max_std_delta: Score::Key(i64::MAX), ..same }),
        Err(StatsError::Values)
    );
    assert_eq!(validate_model_config(4, ObservationInput::Vector(20), 4, 20), Ok(()));
    assert_eq!(
        validate_model_config(3, ObservationInput::Vector(20), 4, 20),
        Err(ModelError::ActionDim(3))
    );
    assert_eq!(
        validate_model_config(4, ObservationInput::Image, 4, 20),
        Err(ModelError::NotVector)
    );
}

#[test]
fn closed_loops_stay_within_the_horizon() {
    assert_eq!(closed_loop_steps(0, 5), None);
    assert_eq!(closed_loop_steps(9, 5), Some(5));
    assert_eq!(check_closed_loop(5, 5), Ok(()));
    assert_eq!(check_closed_loop(0, 5), Err(ClosedLoopError::NoSteps));
    assert_eq!(
        check_closed_loop(6, 5),
        Err(ClosedLoopError::BeyondHorizon { steps: 6, horizon: 5 })
    );
    let mut window = vec![1, 2, 3];
    shift_window(&mut window, 4);
    assert_eq!(window, vec![2, 3, 4]);
    let mut closed = ClosedLoop::new(1, 2);
    assert_eq!((closed.history.clone(), closed.prefix.clone()), (vec![0, 1], vec![0]));
    assert_eq!(closed.next(), Some(0));
    closed.step(7, 8);
    assert_eq!(closed.next(), None);
    assert_eq!((closed.history, closed.prefix, closed.done), (vec![1, 7], vec![8], 1));
    assert_ne!(planner_seed(3, 5, 0), planner_seed(3, 5, 1));
    assert_eq!(closed_loop_seed(3, 5, 2), 3 ^ (5 << 32) ^ (2 << 16));
    assert_eq!(future_length(8, 13), Some(5));
    assert_eq!(future_length(8, 8), None);
    assert_eq!(report_batch_count(10, 4), 3);
}

#[test]
fn traces_have_one_slot_each() {
    let mut slots = TraceSlots::new();
    assert_eq!(slots.trace_accum_mut(5, 0), 0);
    assert_eq!(slots.trace_accum_mut(5, 1), 1);
    assert_eq!(slots.trace_accum_mut(5, 0), 0);
    assert_eq!(slots.slots.len(), 2);
    assert_eq!(target_use(&[2, 16], 2, 16), Some(TargetUse::Whole));
    assert_eq!(target_use(&[2, 5, 16], 2, 16), Some(TargetUse::Step(4)));
    assert_eq!(target_use(&[3, 16], 2, 16), None);
    assert_eq!(target_use(&[3, 0, 16], 2, 16), None);
    assert_eq!(target_use(&[2, 0, 15], 2, 16), None);
}

#[test]
fn warm_starts_need_a_fitting_sequence() {
    let dims = [2, 5, 4];
    assert_eq!(warm_start_use(WarmStartMode::Cold, &dims, 1, 1, 1), Ok(WarmStartUse::Nothing));
    assert_eq!(
        warm_start_use(WarmStartMode::FirstAction, &dims, 1, 1, 1),
        Ok(WarmStartUse::Repeated)
    );
    assert_eq!(
        warm_start_use(WarmStartMode::ExpertSequence, &dims, 2, 5, 4),
        Ok(WarmStartUse::Sequence)
    );
    assert_eq!(
        warm_start_use(WarmStartMode::ExpertSequence, &dims, 2, 6, 4),
        Err(WarmStartShape { found: vec![2, 5, 4], expected: [2, 6, 4] })
    );
}

fn frames(list: &[(i64, i64)]) -> Vec<FrameIndex> {
    list.iter().map(|(episode_idx, step_idx)| FrameIndex {
        episode_idx: *episode_idx,
        step_idx: *step_idx,
    }).collect()
}

#[test]
fn rollouts_are_compared_over_one_flight() {
    assert_eq!(
        rollout_window(10, 3, 5),
        Ok(RolloutWindow { history_start: 7, sequence_steps: 8 })
    );
    assert_eq!(rollout_window(2, 3, 5), Err(RolloutError::NoHistory));
    assert_eq!(rollout_window(9, 3, usize::MAX), Err(RolloutError::Overflow));
    assert_eq!(ensure_same_episode(&frames(&[(1, 4), (1, 5), (1, 6)]), 7), Ok(()));
    assert_eq!(
        ensure_same_episode(&frames(&[(1, 4), (2, 5)]), 7),
        Err(RolloutError::CrossesEpisode { row: 8 })
    );
    assert_eq!(
        ensure_same_episode(&frames(&[(1, 4), (1, 5), (1, 7)]), 7),
        Err(RolloutError::StepGap { row: 9 })
    );
    let rows = sample_steps(7, 40, 3);
    assert_eq!(rows.iter().map(|row| row.index).collect::<Vec<_>>(), vec![0, 2, 5, 6]);
    assert_eq!(rows[1], SampleRow { index: 2, step: 3, row: 42 });
    assert!(sample_steps(0, 40, 3).is_empty());
    assert_eq!(check_comparable(&vec![4, 4], &vec![4, 4]), Ok(()));
    assert_eq!(
        check_comparable(&vec![4], &vec![4, 4]),
        Err(CompareError::Steps { predicted: 1, actual: 2 })
    );
    assert_eq!(
        check_comparable(&vec![4, 5], &vec![4, 4]),
        Err(CompareError::Dims { step: 1, predicted: 5, actual: 4 })
    );
}

#[test]
fn checkpoints_are_found_by_their_names() {
    assert_eq!(parse_checkpoint_step("checkpoint-step-00001000.safetensors"), Some(1000));
    assert_eq!(parse_checkpoint_step("checkpoint-step-.safetensors"), None);
    assert_eq!(parse_checkpoint_step("final.safetensors"), None);
    let names = ["checkpoint-step-00000020.safetensors", "metrics.jsonl",
        "checkpoint-step-00000010.safetensors"]
        .iter()
        .map(|name| name.to_string())
        .collect::<Vec<_>>();
    let info = |step, file| CheckpointInfo { step, file };
    assert_eq!(
        discover_checkpoints(&names, &vec![], Some(None)),
        vec![
            info(10, CheckpointFile::Listed(2)),
            info(20, CheckpointFile::Listed(0)),
            info(20, CheckpointFile::Final),
        ]
    );
    assert_eq!(
        discover_checkpoints(&names, &vec![10, 15], Some(Some(15))),
        vec![info(10, CheckpointFile::Listed(2)), info(15, CheckpointFile::Final)]
    );
    assert_eq!(discover_checkpoints(&names, &vec![99], None), vec![]);
}

#[test]
fn training_states_and_metrics_are_read() {
    assert_eq!(training_final_step("{\"global_step\": 12, \"run\": {}}"), Ok(Some(12)));
    assert_eq!(training_final_step("{\"global_step\": -1}"), Ok(None));
    assert_eq!(training_final_step("[1]"), Ok(None));
    assert_eq!(training_final_step("{"), Err(JsonError { line: 0 }));
    let metrics = "{\"step\":1,\"elapsed_sec\":0.5}\n{\"step\":2}\n{\"step\":3,\"elapsed_sec\":\"x\"}\n{\"step\":1,\"elapsed_sec\":2}\n";
    assert_eq!(training_elapsed_by_step(metrics), Ok(vec![(1, 3)]));
    assert_eq!(training_elapsed_by_step("{}\noops\n"), Err(JsonError { line: 1 }));
    assert_eq!(training_elapsed_by_step(""), Ok(vec![]));
}

#[test]
fn replays_stay_in_their_episode() {
    let episodes = vec![0, 0, 0, 0, 1, 1];
    assert_eq!(replay_row_has_horizon(&episodes, 0, 2, 2), Some(true));
    assert_eq!(replay_row_has_horizon(&episodes, 1, 2, 2), Some(false));
    assert_eq!(replay_row_has_horizon(&episodes, 4, 2, 2), Some(false));
    assert_eq!(replay_row_has_horizon(&episodes, 6, 2, 2), None);
    assert_eq!(replay_rows(&episodes, &vec![0, 1, 9], 2, 2), vec![0]);
    assert_eq!(eval_batches(10, 4, 2), 2);
    assert_eq!(eval_batches(10, 4, 9), 3);
    let sound = CheckedArgs {
        history_steps: 8,
        horizon_steps: 40,
        batch_size: 1,
        max_batches: 1,
        report_horizons: vec![10, 40],
    };
    assert_eq!(validate_args(&sound), Ok(()));
    assert_eq!(
        validate_args(&CheckedArgs { report_horizons: vec![41], ..sound }),
        Err("all --report-horizons entries must be in 1..=horizon_steps")
    );
}

#[test]
fn the_longest_replay_is_chosen() {
    let episodes = vec![0, 0, 1];
    assert_eq!(replay_candidate_rows(&episodes, &vec![0, 2, 7], Some(1)), Ok(vec![2]));
    assert_eq!(replay_candidate_rows(&episodes, &vec![0, 2], None), Ok(vec![0, 2]));
    assert_eq!(replay_candidate_rows(&episodes, &vec![0, 2], Some(5)), Err(5));
    assert_eq!(select_replay_row(&vec![4, 5, 6], &vec![1, 9, 9], None), Ok(6));
    assert_eq!(select_replay_row(&vec![], &vec![], None), Err(ReplayError::NoRow));
    assert_eq!(select_replay_row(&vec![4, 5], &vec![], Some(5)), Ok(5));
    assert_eq!(
        select_replay_row(&vec![4, 5], &vec![], Some(6)),
        Err(ReplayError::NotHeldOut { row: 6 })
    );
    assert_eq!(replay_chunk_steps(100, 59), Ok(58));
    assert!(replay_chunk_steps(100, 1).is_err());
}

#[test]
fn replays_are_divided_into_chunks() {
    assert_eq!(
        replay_chunks(6, 2),
        vec![
            ReplayChunk { offset: 0, steps: 2 },
            ReplayChunk { offset: 2, steps: 2 },
            ReplayChunk { offset: 4, steps: 1 },
        ]
    );
    assert_eq!(replay_chunks(1, 2), vec![]);
    assert_eq!(replay_chunks(0, 2), vec![]);
    assert_eq!(plan_prediction(5, 8, 59), Ok(PredictionPlan::Recorded));
    assert_eq!(
        plan_prediction(20, 8, 59),
        Ok(PredictionPlan::Rollout { history: 8, actions: 19, predicted: 12 })
    );
    assert!(plan_prediction(0, 8, 59).is_err());
    assert!(plan_prediction(5, 0, 59).is_err());
    assert_eq!(compared_frames(5, 4, 6), 4);
    assert_eq!(replay_periods(101, 100), Some(100));
    assert_eq!(replay_periods(101, 0), None);
}

#[test]
fn observations_hold_the_action_before() {
    let frame = |value: u32| ObservedFrame {
        rotation: [value; 9],
        linear_velocity: [value + 1; 3],
        angular_velocity: [value + 2; 3],
        battery: value + 3,
        action: [value + 4; 4],
    };
    let rows = initial_observations(&vec![frame(10), frame(20)], 2);
    assert_eq!(rows[0].len(), 20);
    assert_eq!(rows[0][15..], [13, 14, 14, 14, 14]);
    assert_eq!(rows[1][8..13], [20, 21, 21, 21, 22]);
    assert_eq!(rows[1][15..], [23, 14, 14, 14, 14]);
}

#[test]
fn skyjepa_evaluations_are_planned() {
    let rows = (0..10).collect::<Vec<usize>>();
    let plan = plan_evaluation(&rows, 4, 2).unwrap();
    assert_eq!((plan.chunks.len(), plan.windows), (2, 8));
    let plan = plan_evaluation(&rows, 4, 0).unwrap();
    assert_eq!((plan.chunks.len(), plan.windows), (3, 10));
    assert_eq!(plan_evaluation(&[], 4, 0).unwrap_err(), "selected SkyJEPA split has no windows");
    let steps = SequenceSteps { history_steps: 10, rollout_steps: 20 };
    assert_eq!(check_sequence(steps, steps), Ok(()));
    assert!(check_sequence(steps, SequenceSteps { rollout_steps: 19, ..steps }).is_err());
    assert_eq!(
        rollout_slices(steps),
        RolloutSlices { initial: 9, actions: 9, targets: 10, steps: 20 }
    );
    assert_eq!(EvalSplit::Test.label(), "test");
    assert_ne!(Perturbation::Baseline, Perturbation::Noise(0));
}

#[test]
fn reports_are_named_by_their_time() {
    assert_eq!(
        lewm_tools::drone_oracle_eval::default_json_path(17),
        "target/drone-oracle-eval/17.json"
    );
    assert_eq!(
        lewm_tools::drone_planner_eval::default_json_path(0),
        "target/drone-planner-eval/0.json"
    );
}

#[test]
fn values_are_normalized_one_by_one() {
    assert_eq!(check_normalization(4, 4, 4), Ok(()));
    assert_eq!(check_normalization(4, 3, 4), Err((4, 3, 4)));
    assert_eq!(check_normalization(4, 4, 5), Err((4, 4, 5)));
}
