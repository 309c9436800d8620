use lewm_tools::audit_skyjepa::{
    all_finite, audit_failures, audit_verdict, block_starts, check_data_file, check_declared,
    check_episode_count, classify_domain_coverage, count_limits, has_column_shape, displaced_rows, transition_rows, validate_args, validate_domain_column, validate_domain_table,
    validate_sequence_index, AuditFailure, AuditLimits, AuditMeasures, CheckedArgs, DomainCoverage,
    DomainError, Excitation, LimitCounts, SequenceError,
};
use lewm_tools::generate_skyjepa::{
    column_fits, domain_seed, index_columns, initial_state_seed, is_hover_episode, plant_steps,
    sample_trajectory, samples_of, substeps, trajectory_seed,
};
use lewm_tools::order::Score;
use lewm_tools::rng::{draws24, mix_seed, SplitMix64, XorShift64};

fn score(value: f64) -> Score {
    if value.is_nan() {
        return Score::NotANumber;
    }
    let magnitude = (value.to_bits() & 0x7fff_ffff_ffff_ffff) as i64;
    Score::Key(if value.is_sign_negative() { -magnitude } else { magnitude })
}

#[test]
fn sequence_validation_rejects_repeated_episode_blocks() {
    assert!(validate_sequence_index(&[0, 0, 1, 1, 0], &[0, 1, 0, 1, 0]).is_err());
}

#[test]
fn sequence_errors_name_their_cause() {
    assert_eq!(validate_sequence_index(&[0, 0, 1, 1], &[0, 1, 0, 1]), Ok(2));
    assert_eq!(validate_sequence_index(&[0], &[]), Err(SequenceError::LengthsDiffer));
    assert_eq!(
        validate_sequence_index(&[0, -1], &[0, 0]),
        Err(SequenceError::NegativeEpisode { row: 1 })
    );
    assert_eq!(
        validate_sequence_index(&[3, 3], &[0, 2]),
        Err(SequenceError::StepDiscontinuity { episode: 3, row: 1, previous: 0, step: 2 })
    );
    assert_eq!(
        validate_sequence_index(&[0, 1], &[0, 4]),
        Err(SequenceError::LateStart { episode: 1, step: 4 })
    );
    assert_eq!(
        validate_sequence_index(&[0, 1, 0], &[0, 0, 0]),
        Err(SequenceError::SplitEpisode { episode: 0 })
    );
}

fn displaced(references: &[f32], starts: &[usize]) -> Vec<bool> {
    let offsets = starts
        .iter()
        .enumerate()
        .map(|(row, start)| {
            [0, 1, 2].map(|axis| {
                let offset = references[row * 18 + axis] - references[start * 18 + axis];
                score(f64::from(offset.abs()))
            })
        })
        .collect();
    displaced_rows(&offsets)
}

#[test]
fn coverage_detects_domain_task_aliasing_and_mid_episode_domain_changes() {
    let mut references = vec![0.0f32; 4 * 18];
    references[3 * 18] = 1.0;
    let episodes = [0i64, 0, 1, 1];
    let moved = displaced(&references, &block_starts(&episodes));
    let coverage = classify_domain_coverage(&episodes, &[0, 0, 1, 1], Some(&moved), 2).unwrap();
    assert_eq!(coverage[0].hover_episodes, 1);
    assert_eq!(coverage[0].moving_episodes, 0);
    assert_eq!(coverage[1].hover_episodes, 0);
    assert_eq!(coverage[1].moving_episodes, 1);
    assert!(classify_domain_coverage(&[0, 0], &[0, 1], None, 2).is_err());
}

#[test]
fn every_domain_gets_hover_and_motion_even_when_domain_count_is_a_multiple_of_ten() {
    for domains in [3usize, 10, 100, 500] {
        for visits in [2usize, 5, 20] {
            for domain in 0..domains {
                let hover = (0..visits)
                    .filter(|visit| {
                        is_hover_episode(visit * domains + domain, domains, visits * domains, 7)
                    })
                    .count();
                assert!(hover > 0 && hover < visits);
                if visits == 20 {
                    assert_eq!(hover, 2);
                }
            }
        }
    }
}

#[test]
fn domain_tables_must_be_in_place_and_used() {
    assert_eq!(validate_domain_table(&[0, 1], Some(2)), Ok(()));
    assert_eq!(validate_domain_table(&[0, 1], None), Ok(()));
    assert_eq!(validate_domain_table(&[], None), Err(DomainError::NoDomains));
    assert_eq!(
        validate_domain_table(&[0, 2], None),
        Err(DomainError::Misplaced { index: 2, position: 1 })
    );
    assert_eq!(
        validate_domain_table(&[0, 1], Some(3)),
        Err(DomainError::Declared { declared: 3, found: 2 })
    );
    assert_eq!(validate_domain_column(&[0, 1, 1], 2), Ok(()));
    assert_eq!(
        validate_domain_column(&[0, 0], 2),
        Err(DomainError::Unused { used: 1, found: 2 })
    );
    assert_eq!(validate_domain_column(&[0, 2], 2), Err(DomainError::OutOfRange));
}

fn limits() -> AuditLimits {
    AuditLimits {
        max_rotation_error: score(1e-3),
        max_tracking_rmse_m: score(1.0),
        max_ground_fraction: score(0.01),
        max_saturation_fraction: score(0.2),
        min_action_std: score(0.05),
        min_differential_action_std: score(0.02),
        min_action_delta_std: score(0.01),
    }
}

fn sound_measures() -> AuditMeasures {
    AuditMeasures {
        has_references: true,
        coverage: vec![DomainCoverage {
            domain: 0,
            episodes: 2,
            hover_episodes: 1,
            moving_episodes: 1,
        }],
        excitation: vec![Excitation {
            differential_action_std: vec![score(0.1), score(0.1), score(0.1)],
            action_delta_std: vec![score(0.1), score(0.1), score(0.1), score(0.1)],
        }],
        max_dt_error: score(0.0),
        max_rotation_error: score(0.0),
        determinant_min: score(1.0),
        determinant_error: score(0.0),
        position_tracking_rmse: Some(score(0.5)),
        ground_fraction: score(0.0),
        saturation_fraction: score(0.0),
        action_std: vec![score(0.1), score(0.1), score(0.1), score(0.1)],
        action_differential_std: vec![score(0.1), score(0.1), score(0.1)],
        action_delta_std: vec![score(0.1), score(0.1), score(0.1), score(0.1)],
    }
}

#[test]
fn sound_data_passes_the_audit() {
    assert_eq!(audit_failures(&sound_measures(), &limits()), vec![]);
    assert_eq!(audit_verdict(0, false), Ok(()));
}

#[test]
fn each_fault_is_reported() {
    let mut measures = sound_measures();
    measures.coverage[0].hover_episodes = 0;
    measures.coverage[0].moving_episodes = 2;
    measures.saturation_fraction = score(0.5);
    measures.action_std[2] = score(0.0);
    let failures = audit_failures(&measures, &limits());
    assert!(failures.contains(&AuditFailure::OneSidedCoverage { domain: 0, hover: 0, moving: 2 }));
    assert!(failures.contains(&AuditFailure::Saturation));
    assert!(failures.contains(&AuditFailure::ActionChannel(2)));
    assert_eq!(failures.len(), 3);
    assert_eq!(audit_verdict(3, false), Err(3));
    assert_eq!(audit_verdict(3, true), Ok(()));
}

#[test]
fn missing_references_fail_the_audit() {
    let mut measures = sound_measures();
    measures.has_references = false;
    assert!(audit_failures(&measures, &limits()).contains(&AuditFailure::NoReferences));
}

#[test]
fn an_error_at_its_limit_passes_the_audit() {
    let mut measures = sound_measures();
    measures.max_rotation_error = score(1e-3);
    measures.determinant_min = score(0.0);
    assert_eq!(audit_failures(&measures, &limits()), vec![AuditFailure::Determinants]);
    measures.max_rotation_error = score(2e-3);
    assert!(audit_failures(&measures, &limits()).contains(&AuditFailure::Rotations));
}

#[test]
fn audit_settings_are_checked_in_order() {
    let sound = CheckedArgs {
        dataset_is_dir: true,
        max_rotation_error: score(1e-3),
        max_tracking_rmse_m: score(1.0),
        max_ground_fraction: score(0.0),
        max_saturation_fraction: score(1.0),
        min_action_std: score(0.0),
        min_differential_action_std: score(0.0),
        min_action_delta_std: score(0.0),
    };
    assert_eq!(validate_args(&sound), Ok(()));
    let missing = CheckedArgs { dataset_is_dir: false, ..sound };
    assert_eq!(validate_args(&missing), Err("dataset-dir is not a directory"));
    let over = CheckedArgs { dataset_is_dir: true, max_ground_fraction: score(1.5), ..missing };
    assert_eq!(validate_args(&over), Err("max-ground-fraction must be in [0, 1]"));
}

#[test]
fn generated_index_passes_the_audit() {
    let columns = index_columns(4, 3, 2);
    assert_eq!(columns.episode_idx, vec![0, 0, 0, 1, 1, 1, 2, 2, 2, 3, 3, 3]);
    assert_eq!(columns.step_idx, vec![0, 1, 2, 0, 1, 2, 0, 1, 2, 0, 1, 2]);
    assert_eq!(columns.domain_idx, vec![0, 0, 0, 1, 1, 1, 0, 0, 0, 1, 1, 1]);
    assert_eq!(validate_sequence_index(&columns.episode_idx, &columns.step_idx), Ok(4));
    assert_eq!(validate_domain_column(&columns.domain_idx, 2), Ok(()));
}

#[test]
fn seeds_of_a_family_differ() {
    assert_eq!(mix_seed(5, 0), 5);
    assert_eq!(mix_seed(0, 1), 0x9E37_79B9_7F4A_7C15u64.rotate_left(17));
    assert_ne!(domain_seed(7, 1), domain_seed(7, 2));
    assert_ne!(trajectory_seed(7, 1), trajectory_seed(7, 2));
    assert_ne!(initial_state_seed(7, 1), trajectory_seed(7, 1));
}

#[test]
fn generators_give_their_known_values() {
    let mut split = SplitMix64::new(0);
    assert_eq!(split.next_u64(), 0xE220_A839_7B1D_CDAF);
    assert_eq!(split.next_u64(), 0x6E78_9E6A_A1B9_65F4);
    assert_eq!(draws24(0, 2), vec![0xE2_20A8, 0x6E_789E]);
    let mut shift = XorShift64::new(0);
    assert_eq!(shift.state, 1);
    shift.next_bits24();
    assert_eq!(shift.state, 0x4082_2041);
}

#[test]
fn hovering_paths_draw_one_value_less() {
    let all = draws24(42, 25);
    let moving = sample_trajectory(42, false);
    let hovering = sample_trajectory(42, true);
    assert_eq!(moving.amplitudes[4], all[8]);
    assert_eq!(moving.phases[4], all[9]);
    assert_eq!(moving.center, (all[18], all[19], all[20]));
    assert_eq!(moving.yaw_amplitude, Some(all[22]));
    assert_eq!(moving.yaw_phase, all[24]);
    assert_eq!(hovering.yaw_amplitude, None);
    assert_eq!(hovering.yaw_period, all[22]);
    assert_eq!(hovering.yaw_phase, all[23]);
}

#[test]
fn the_plant_rests_behind_the_last_sample() {
    assert_eq!(substeps(200, 20), 10);
    assert_eq!(plant_steps(0, 30, 10), 10);
    assert_eq!(plant_steps(30, 30, 10), 0);
    assert!(column_fits(36, 2, 18));
    assert!(!column_fits(35, 2, 18));
}

#[test]
fn limits_are_counted_row_by_row() {
    let heights = vec![score(1.0), score(0.05)];
    let commands = [0.0, 1.0, 1.98, 2.0, 1e-7, 0.5, 3.0, 1.0].map(score).to_vec();
    let upper = vec![score(1.98), score(2.5)];
    assert_eq!(
        count_limits(&heights, &commands, &upper),
        LimitCounts { ground_contacts: 1, low_commands: 2, high_commands: 3 }
    );
    assert_eq!(transition_rows(&[0, 0, 1, 1, 1]), vec![1, 3, 4]);
    assert!(transition_rows(&[]).is_empty());
}

#[test]
fn displacements_begin_beyond_a_tenth_of_a_millimetre() {
    let limit = score(f64::from(1e-4f32));
    let beyond = score(1.1e-4);
    let zero = score(0.0);
    assert_eq!(
        displaced_rows(&vec![
            [zero, zero, limit],
            [zero, beyond, zero],
            [Score::NotANumber, zero, zero]
        ]),
        vec![false, true, false]
    );
    assert!(check_data_file("./data.h5").is_err());
    assert_eq!(check_data_file("data.h5/"), Ok(()));
    assert_eq!(samples_of(200), 201);
}

#[test]
fn declarations_must_agree_with_the_data() {
    assert_eq!(check_episode_count(3, 3), Ok(()));
    assert_eq!(check_episode_count(3, 2), Err((3, 2)));
    assert_eq!(check_declared(true, true), Ok(()));
    assert_eq!(check_declared(false, false), Ok(()));
    assert_eq!(check_declared(true, false), Err((true, false)));
    assert_eq!(check_declared(false, true), Err((false, true)));
}

#[test]
fn columns_have_their_shape_and_finite_values() {
    assert!(has_column_shape(&[5, 18], 5, Some(18)));
    assert!(!has_column_shape(&[18, 5], 5, Some(18)));
    assert!(!has_column_shape(&[5], 5, Some(1)));
    assert!(has_column_shape(&[5], 5, None));
    assert!(!has_column_shape(&[5, 1], 5, None));
    assert!(all_finite(&[]));
    assert!(all_finite(&[score(0.0), score(-1e300)]));
    assert!(!all_finite(&[score(0.0), score(f64::NEG_INFINITY)]));
    assert!(!all_finite(&[score(f64::NAN)]));
}
