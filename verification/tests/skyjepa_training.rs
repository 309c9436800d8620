use lewm_tools::batching::{batch_count, batch_rows, limited_chunks};
use lewm_tools::order::Score;
use lewm_tools::train_skyjepa::{
    changed_entries, check_audit, check_split, first_stage, load_or_create_progress,
    may_write_manifest, prepare_output_dir, prober_device_seed, requested_steps, scheduled_phase,
    stage_artifacts, stage_budget, AuditError, ManifestField, OutputError, RatePhase, StageError,
    StageRun, StageSettings, TrainingStage,
};

fn scheduled_lr(step: usize, warmup: usize, cosine: usize, max_lr: f64, min_lr: f64) -> f64 {
    match scheduled_phase(step, warmup, cosine) {
        RatePhase::Warmup { reached, warmup } => max_lr * reached as f64 / warmup as f64,
        RatePhase::Minimum => min_lr,
        RatePhase::Cosine { elapsed, span } => {
            let progress = elapsed as f64 / span as f64;
            min_lr + 0.5 * (max_lr - min_lr) * (1.0 + (std::f64::consts::PI * progress).cos())
        }
    }
}

#[test]
fn learning_rate_warms_up_and_decays() {
    assert_eq!(scheduled_lr(0, 4, 10, 1.0, 0.1), 0.25);
    assert_eq!(scheduled_lr(3, 4, 10, 1.0, 0.1), 1.0);
    assert_eq!(scheduled_lr(4, 4, 10, 1.0, 0.1), 1.0);
    assert!((scheduled_lr(14, 4, 10, 1.0, 0.1) - 0.1).abs() < 1e-12);
}

#[test]
fn batch_slicing_retains_partial_final_batch() {
    let rows = (0..10).collect::<Vec<_>>();
    assert_eq!(batch_count(rows.len(), 4), 3);
    assert_eq!(batch_rows(&rows, 2, 4), &[8, 9]);
}

#[test]
fn batches_put_together_are_the_rows() {
    let rows = (0..10).collect::<Vec<usize>>();
    let chunks = limited_chunks(&rows, 4, 0);
    assert_eq!(chunks.concat(), rows);
    assert_eq!(limited_chunks(&rows, 4, 2).concat(), rows[..8].to_vec());
    assert_eq!(limited_chunks(&rows, 4, 9).len(), 3);
}

#[test]
fn step_targets_respect_the_limit() {
    assert_eq!(requested_steps(3, 5, None), Ok(15));
    assert_eq!(requested_steps(3, 5, Some(7)), Ok(7));
    assert_eq!(requested_steps(3, 5, Some(70)), Ok(15));
    assert_eq!(requested_steps(usize::MAX, 2, None), Err(StageError::StepsOverflow));
}

fn settings() -> StageSettings {
    StageSettings {
        stage: TrainingStage::Latent,
        seed: 7,
        rows: 5,
        batch_size: 2,
        epochs: 2,
        max_steps: None,
        log_every: 2,
        save_every: 0,
    }
}

#[test]
fn a_latent_stage_passes_over_a_single_row() {
    let progress = load_or_create_progress(&settings(), "data", None, 11).unwrap();
    assert_eq!(progress.updated_at_unix, 11);
    let mut run = StageRun::start(settings(), progress).unwrap();
    let mut seen = Vec::new();
    while let Some(plan) = run.next() {
        seen.push((plan.epoch, plan.first_row, plan.end_row, plan.passed_over));
        if !plan.passed_over {
            run.trained(&plan);
        }
    }
    assert_eq!(
        seen,
        vec![
            (0, 0, 2, false),
            (0, 2, 4, false),
            (0, 4, 5, true),
            (1, 0, 2, false),
            (1, 2, 4, false),
            (1, 4, 5, true),
        ]
    );
}

#[test]
fn resuming_continues_where_the_run_stopped() {
    let progress = load_or_create_progress(&settings(), "data", None, 0).unwrap();
    let mut run = StageRun::start(settings(), progress).unwrap();
    let first = run.next().unwrap();
    assert_eq!(first.shuffle, Some((7, 0)));
    run.trained(&first);
    let mut whole = Vec::new();
    while let Some(plan) = run.next() {
        whole.push((plan.step_index, plan.first_row, plan.end_row));
    }
    let mut saved = load_or_create_progress(&settings(), "data", None, 0).unwrap();
    saved.global_step = 1;
    let saved = load_or_create_progress(&settings(), "data", Some(saved), 5).unwrap();
    let mut resumed = StageRun::start(settings(), saved).unwrap();
    let mut rest = Vec::new();
    while let Some(plan) = resumed.next() {
        rest.push((plan.step_index, plan.first_row, plan.end_row));
    }
    assert_eq!(whole, rest);
}

#[test]
fn another_run_is_not_resumed() {
    let saved = load_or_create_progress(&settings(), "data", None, 0).unwrap();
    let mut other = settings();
    other.seed = 8;
    assert_eq!(
        load_or_create_progress(&other, "data", Some(saved), 0).unwrap_err(),
        "resume state is incompatible with current arguments"
    );
    let saved = load_or_create_progress(&settings(), "/data", None, 0).unwrap();
    assert_eq!(saved.dataset_dir, "/data");
    assert!(load_or_create_progress(&settings(), "/./data/", Some(saved), 0).is_ok());
    let mut saved = load_or_create_progress(&settings(), "data", None, 0).unwrap();
    saved.global_step = 100;
    let target = StageRun::start(
        settings(),
        load_or_create_progress(&settings(), "data", None, 0).unwrap(),
    )
    .unwrap()
    .target;
    assert_eq!(
        StageRun::start(settings(), saved).unwrap_err(),
        StageError::PastTarget { step: 100, target }
    );
}

#[test]
fn the_best_validation_is_kept() {
    let progress = load_or_create_progress(&settings(), "data", None, 0).unwrap();
    let mut run = StageRun::start(settings(), progress).unwrap();
    let plan = run.next().unwrap();
    run.trained(&plan);
    assert!(run.validated(&plan, Score::Key(5)));
    let plan = run.next().unwrap();
    run.trained(&plan);
    assert!(!run.validated(&plan, Score::Key(5)));
    assert!(!run.validated(&plan, Score::NotANumber));
    assert!(run.validated(&plan, Score::Key(4)));
    assert_eq!(run.progress.best_validation, Some(Score::Key(4)));
    assert!(!run.validated(&plan, Score::Key(4)));
    assert_eq!((run.progress.best_epoch, run.progress.best_step), (Some(1), Some(2)));
}

#[test]
fn existing_runs_are_not_overwritten_unasked() {
    let stage = TrainingStage::Latent;
    assert_eq!(prepare_output_dir(stage, false, false, true, false, false), Ok(()));
    assert_eq!(
        prepare_output_dir(stage, false, false, true, true, false),
        Err(OutputError::StageExists(stage))
    );
    assert_eq!(prepare_output_dir(stage, false, true, true, true, false), Ok(()));
    assert_eq!(
        prepare_output_dir(stage, true, true, true, true, false),
        Err(OutputError::ResumeAndOverwrite)
    );
    assert_eq!(
        prepare_output_dir(TrainingStage::Both, true, false, true, true, true),
        Err(OutputError::ResumeBoth)
    );
    assert_eq!(
        prepare_output_dir(stage, true, false, false, false, false),
        Err(OutputError::NoOutputDir)
    );
}

#[test]
fn audits_are_bound_to_their_data() {
    assert_eq!(check_audit(true, "abc", "abc"), Ok(()));
    assert_eq!(check_audit(false, "abc", "abc"), Err(AuditError::NotPassed));
    assert_eq!(check_audit(true, "", "abc"), Err(AuditError::NoFingerprint));
    assert_eq!(check_audit(true, "abc", "abd"), Err(AuditError::ContentChanged));
}

fn field(name: &str, value: &str) -> ManifestField {
    ManifestField { name: name.to_string(), value: value.to_string() }
}

#[test]
fn changed_settings_are_named() {
    let saved = vec![field("seed", "7"), field("rate", "20")];
    let same = vec![field("seed", "7"), field("rate", "20")];
    let other = vec![field("seed", "8"), field("rate", "20")];
    assert!(changed_entries(&saved, &same).is_empty());
    assert_eq!(changed_entries(&saved, &other), vec!["seed".to_string()]);
    let provenance = vec![field("seed", "7"), field("rate", "20"), field("git_commit", "a")];
    assert!(changed_entries(&provenance, &saved).is_empty());
    assert_eq!(changed_entries(&saved, &vec![field("seed", "7")]), vec!["rate".to_string()]);
}

#[test]
fn stages_have_their_budgets_and_files() {
    let latent = (3, Some(10));
    let prober = (4, None);
    assert_eq!(stage_budget(TrainingStage::Latent, latent, prober), latent);
    assert_eq!(stage_budget(TrainingStage::Prober, latent, prober), prober);
    assert!(stage_artifacts("latent").contains(&"latent.safetensors".to_string()));
}

#[test]
fn stages_start_in_order() {
    assert_eq!(first_stage(TrainingStage::Both), "latent");
    assert_eq!(first_stage(TrainingStage::Prober), "prober");
    assert_ne!(prober_device_seed(7), 7);
    assert_eq!(prober_device_seed(prober_device_seed(7)), 7);
    assert_eq!(may_write_manifest(false, false), Ok(()));
    assert_eq!(may_write_manifest(true, true), Ok(()));
    assert_eq!(
        may_write_manifest(true, false),
        Err("stage manifest already exists; use --resume or --overwrite")
    );
}

#[test]
fn both_splits_must_have_windows() {
    assert_eq!(check_split(2, 1), Ok(()));
    assert_eq!(
        check_split(1, 0),
        Err("SkyJEPA training split contains fewer than two windows")
    );
    assert_eq!(check_split(2, 0), Err("SkyJEPA validation split contains no windows"));
}
