use lewm_tools::epochs::{
    batches_per_epoch, checkpoint_files, ensure_eq, ensure_finite_loss, ensure_same_optional_path,
    ensure_same_path, EpochError, EpochMarks,
    EpochRun, EpochSettings,
};
use lewm_tools::eval_drone_checkpoints::parse_checkpoint_step;
use lewm_tools::order::Score;
use lewm_tools::train_drone;
use lewm_tools::train_pusht;

fn settings() -> EpochSettings {
    EpochSettings {
        rows: 7,
        batch_size: 3,
        epochs: 2,
        max_steps: None,
        log_every: 3,
        save_every: 2,
    }
}

#[test]
fn epochs_are_made_of_full_batches() {
    assert_eq!(batches_per_epoch(7, 3), Ok(2));
    assert_eq!(batches_per_epoch(2, 3), Err(EpochError::TooFewRows));
    let mut run = EpochRun::start(settings(), 0).unwrap();
    let mut seen = Vec::new();
    while let Some(step) = run.next() {
        let marks = run.trained();
        seen.push((step.epoch, step.first_row, step.end_row, step.reorder, marks.log, marks.save));
    }
    assert_eq!(
        seen,
        vec![
            (0, 0, 3, true, true, false),
            (0, 3, 6, false, false, true),
            (1, 0, 3, true, true, false),
            (1, 3, 6, false, false, true),
        ]
    );
    assert_eq!((run.global_step, run.last_epoch, run.last_batch_index), (4, 1, 1));
}

#[test]
fn resumed_epochs_go_on_with_the_same_rows() {
    let mut whole = EpochRun::start(settings(), 0).unwrap();
    whole.next();
    whole.trained();
    let mut resumed = EpochRun::start(settings(), 1).unwrap();
    let going = whole.next().unwrap();
    let fresh = resumed.next().unwrap();
    assert_eq!((going.first_row, going.end_row), (fresh.first_row, fresh.end_row));
    assert!(!going.reorder && fresh.reorder);
    assert_eq!(resumed.trained(), EpochMarks { log: false, save: true });
}

#[test]
fn finished_and_endless_runs_do_not_start() {
    assert_eq!(
        EpochRun::start(settings(), 4).unwrap_err(),
        EpochError::AtTarget { start: 4, target: 4 }
    );
    let endless = EpochSettings { epochs: usize::MAX, ..settings() };
    assert_eq!(EpochRun::start(endless, 0).unwrap_err(), EpochError::StepsOverflow);
    let limited = EpochSettings { max_steps: Some(1), ..settings() };
    assert_eq!(EpochRun::start(limited, 0).unwrap().target, 1);
    assert_eq!(ensure_finite_loss(3, Score::Key(5)), Ok(()));
    assert_eq!(ensure_finite_loss(3, Score::NotANumber), Err(3));
    assert_eq!(ensure_finite_loss(4, Score::Key(0x7ff0_0000_0000_0000)), Err(4));
}

#[test]
fn checkpoints_carry_their_step() {
    let files = checkpoint_files(1000);
    assert_eq!(files.weights, "checkpoint-step-00001000.safetensors");
    assert_eq!(files.optimizer, "optimizer-step-00001000.safetensors");
    assert_eq!(parse_checkpoint_step(&files.weights), Some(1000));
    assert_eq!(parse_checkpoint_step(&checkpoint_files(1234567890).weights), Some(1234567890));
}

#[test]
fn settings_are_compared_by_value() {
    assert_eq!(ensure_eq("seed", &3u64, &3u64), Ok(()));
    assert_eq!(ensure_eq("seed", &3u64, &4u64), Err("seed"));
    assert_eq!(
        ensure_same_optional_path("config", &Some("a".to_string()), &None),
        Err("config")
    );
    assert_eq!(ensure_same_path("data", "a//b", "a/b"), Ok(()));
    assert_eq!(ensure_eq("lr", &Score::NotANumber, &Score::NotANumber), Err("lr"));
}

fn pusht_args() -> train_pusht::CheckedArgs {
    let one = Score::Key(0x3ff0_0000_0000_0000);
    train_pusht::CheckedArgs {
        config: None,
        init_safetensors: None,
        resume_dir: None,
        device: "cuda:0".to_string(),
        dtype: "f32".to_string(),
        epochs: 100,
        max_steps: None,
        batch_size: 64,
        history_size: 3,
        action_block: 5,
        image_size: 224,
        seed: 7,
        no_action_normalize: false,
        blosc_threads: 0,
        lr: one,
        weight_decay: one,
        log_every: 10,
        save_every: 1000,
        weights: train_pusht::LossWeights {
            prediction: one,
            temporal_alignment: one,
            std: one,
            std_t: one,
            covariance: one,
            covariance_t: one,
            temporal_straightening: one,
        },
    }
}

#[test]
fn pusht_settings_are_checked_in_order() {
    assert_eq!(train_pusht::validate_args(&pusht_args()), Ok(()));
    let mut args = pusht_args();
    args.max_steps = Some(0);
    args.lr = Score::Key(0);
    assert_eq!(train_pusht::validate_args(&args), Err("--max-steps must be greater than zero"));
    args.max_steps = None;
    assert_eq!(train_pusht::validate_args(&args), Err("--lr must be finite and greater than zero"));
    let mut args = pusht_args();
    args.resume_dir = Some("a".to_string());
    args.init_safetensors = Some("b".to_string());
    assert_eq!(
        train_pusht::validate_args(&args),
        Err("--resume-dir and --init-safetensors are mutually exclusive")
    );
    let mut args = pusht_args();
    args.weights.std_t = Score::Key(-1);
    assert_eq!(
        train_pusht::validate_args(&args),
        Err("--std-t-weight must be finite and non-negative")
    );
}

#[test]
fn pusht_runs_are_resumed_with_their_own_settings() {
    let run = |args| train_pusht::RunSettings::from_args(args, "data.h5".to_string());
    let mut longer = pusht_args();
    longer.epochs = 200;
    longer.save_every = 5;
    let saved = run(pusht_args());
    assert!(saved.normalize_actions);
    assert_eq!(train_pusht::ensure_resume_compatible(&run(longer), &saved), Ok(()));
    let mut other = pusht_args();
    other.seed = 8;
    other.weights.std = Score::Key(0);
    assert_eq!(train_pusht::ensure_resume_compatible(&run(other), &saved), Err("seed"));
    let mut other = pusht_args();
    other.weights.std = Score::Key(0);
    assert_eq!(train_pusht::ensure_resume_compatible(&run(other), &saved), Err("loss_weights"));
    let at = |path: &str, config: Option<&str>| {
        let mut args = pusht_args();
        args.config = config.map(str::to_string);
        train_pusht::RunSettings::from_args(args, path.to_string())
    };
    let saved = at("/data/pusht.h5", Some("runs/a.json"));
    let written_otherwise = at("/data//pusht.h5", Some("runs/./a.json"));
    assert_eq!(train_pusht::ensure_resume_compatible(&written_otherwise, &saved), Ok(()));
    let relative = at("data/pusht.h5", Some("runs/a.json"));
    assert_eq!(train_pusht::ensure_resume_compatible(&relative, &saved), Err("dataset_h5"));
    let plain = at("/data/pusht.h5", None);
    assert_eq!(train_pusht::ensure_resume_compatible(&plain, &saved), Err("config"));
}

#[test]
fn pusht_seeds_and_sizes_are_derived() {
    assert_eq!(train_pusht::epoch_seed(7, 0), 7);
    assert_eq!(train_pusht::epoch_seed(7, 1), 7u64.wrapping_add(0x9E3779B97F4A7C15));
    let sizes = train_pusht::default_sizes(10, 3, 224);
    assert_eq!(train_pusht::validate_model_config(&sizes, 10, 3, 224), Ok(()));
    assert_eq!(
        train_pusht::validate_model_config(&sizes, 9, 3, 224),
        Err(train_pusht::ModelError::ActionDim)
    );
    assert_eq!(
        train_pusht::validate_model_config(&sizes, 10, 4, 224),
        Err(train_pusht::ModelError::HistorySize)
    );
    let mut frames = sizes;
    frames.num_frames = 2;
    assert_eq!(
        train_pusht::validate_model_config(&frames, 10, 3, 224),
        Err(train_pusht::ModelError::NumFrames)
    );
    assert_eq!(
        train_pusht::validate_model_config(&sizes, 10, 3, 96),
        Err(train_pusht::ModelError::ImageSize)
    );
    assert_eq!(
        train_pusht::default_pusht_dataset_path(Some("/h")),
        "/h/.stable_worldmodel/pusht_expert_train.h5"
    );
}

fn drone_args() -> train_drone::CheckedArgs {
    let one = Score::Key(0x3ff0_0000_0000_0000);
    train_drone::CheckedArgs {
        config: None,
        init_safetensors: None,
        resume_dir: None,
        device: "cuda:0".to_string(),
        dtype: "f32".to_string(),
        epochs: 100,
        max_steps: None,
        train_all_data: false,
        batch_size: 256,
        history_steps: 8,
        horizon_steps: 50,
        seed: 7,
        no_observation_normalize: false,
        no_action_normalize: true,
        no_target_normalize: false,
        lr: one,
        weight_decay: Score::Key(0),
        log_every: 10,
        save_every: 1000,
        weights: train_drone::LossWeights {
            state_prediction: one,
            temporal_alignment: one,
            std: one,
            std_t: one,
            covariance: one,
            covariance_t: one,
            temporal_straightening: one,
        },
    }
}

#[test]
fn drone_runs_are_resumed_with_their_own_settings() {
    assert_eq!(train_drone::validate_args(&drone_args()), Ok(()));
    let mut args = drone_args();
    args.horizon_steps = 0;
    assert_eq!(
        train_drone::validate_args(&args),
        Err("--horizon-steps must be greater than zero")
    );
    let run = |args, output: &str| {
        train_drone::RunSettings::from_args(args, "data".to_string(), output.to_string(), 59)
    };
    let saved = run(drone_args(), "a");
    let slashed =
        train_drone::RunSettings::from_args(drone_args(), "data/".to_string(), "a".to_string(), 59);
    assert_eq!(train_drone::ensure_resume_compatible(&slashed, &saved), Ok(()));
    assert!(saved.normalization.observations && !saved.normalization.actions);
    let mut longer = drone_args();
    longer.weights.std = Score::Key(0);
    longer.epochs = 1;
    assert_eq!(train_drone::ensure_resume_compatible(&run(longer, "b"), &saved), Ok(()));
    let mut other = drone_args();
    other.no_target_normalize = true;
    assert_eq!(
        train_drone::ensure_resume_compatible(&run(other, "a"), &saved),
        Err("normalization")
    );
    let mut other = drone_args();
    other.train_all_data = true;
    assert_eq!(
        train_drone::ensure_resume_compatible(&run(other, "a"), &saved),
        Err("train_all_data")
    );
    assert_eq!(train_drone::sequence_steps(8, 50), Ok(59));
    assert!(train_drone::sequence_steps(usize::MAX, 0).is_err());
    assert_eq!(train_drone::row_source(true), "all_valid_rows");
    assert_eq!(train_drone::row_source(false), "metadata_train_episodes");
}

#[test]
fn trained_drone_models_have_the_sizes_of_the_data() {
    let config = train_pusht::ModelSizes {
        action_dim: 4,
        history_size: 3,
        num_frames: 3,
        image_size: 224,
    };
    assert_eq!(
        train_drone::trained_sizes(&config, 8, 49),
        train_pusht::ModelSizes {
            action_dim: 4,
            history_size: 8,
            num_frames: 49,
            image_size: 224,
        }
    );
}
