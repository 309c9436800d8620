use csv::StringRecord;
use lewm_tools::drone_dynamics_stats::sample_rows;
use lewm_tools::drone_fit_plant::{
    another_pass, collect_windows, sign_sets, tune_scalar, valid_window, FrameIndex,
};
use lewm_tools::drone_import::{
    default_input_dir, gate_columns, gate_name, import_stride, is_sync_csv, read_fields, read_gates, sample_columns,
    validate_args, CheckedArgs, FieldError, FlightImport, HeaderIndex, RowUse,
};
use lewm_tools::find_drone_rows::{
    categories, row_window, scan_rows, skipped_rows, top_by, Direction, RowReading, RowWindow,
};
use lewm_tools::order::Score;

fn score(value: f64) -> Score {
    if value.is_nan() {
        return Score::NotANumber;
    }
    let magnitude = (value.to_bits() & 0x7fff_ffff_ffff_ffff) as i64;
    Score::Key(if value.is_sign_negative() { -magnitude } else { magnitude })
}

#[test]
fn columns_are_found_by_their_names() {
    let index = HeaderIndex::new(&StringRecord::from(vec!["a", "b", "a"]));
    assert!(index.contains("b") && !index.contains("c"));
    let row = StringRecord::from(vec!["1", "2", "3"]);
    let reading = read_fields(&index, &row, &vec!["b".to_string(), "a".to_string()]);
    assert_eq!(reading.texts, vec!["2", "3"]);
    assert_eq!(reading.failure, None);
}

#[test]
fn missing_columns_and_values_are_named() {
    let index = HeaderIndex::new(&StringRecord::from(vec!["a", "b"]));
    let short = StringRecord::from(vec!["1"]);
    let reading = read_fields(&index, &short, &vec!["a".to_string(), "b".to_string()]);
    assert_eq!(reading.texts, vec!["1"]);
    assert_eq!(reading.failure, Some(FieldError::MissingValue { column: 1 }));
    let reading = read_fields(&index, &short, &vec!["c".to_string()]);
    assert_eq!(reading.failure, Some(FieldError::MissingColumn { column: 0 }));
    assert_eq!(sample_columns().len(), 30);
}

#[test]
fn gates_are_read_as_long_as_they_have_columns() {
    let mut names = gate_columns(1);
    names.extend(gate_columns(2));
    let headers = StringRecord::from(names.clone());
    let values = (0..names.len()).map(|value| value.to_string()).collect::<Vec<_>>();
    let gates = read_gates(&HeaderIndex::new(&headers), &StringRecord::from(values));
    assert_eq!(gates.iter().map(|gate| gate.gate).collect::<Vec<_>>(), vec![1, 2]);
    assert_eq!(gates[1].reading.texts.len(), gate_columns(2).len());
    assert_eq!(gates[0].reading.texts[0], "0");
    assert_eq!(gate_name(3), "gate3");
}

#[test]
fn every_strideth_row_is_imported() {
    let mut import = FlightImport::new(2);
    assert_eq!(import.next_row(), RowUse::Sample { first: true });
    assert_eq!(import.keep(), 0);
    assert!(!import.is_usable());
    assert_eq!(import.next_row(), RowUse::Skip);
    assert_eq!(import.next_row(), RowUse::Sample { first: false });
    assert_eq!(import.keep(), 1);
    assert!(import.is_usable());
    assert!(is_sync_csv("flight-01_500hz_freq_sync.csv"));
    assert!(!is_sync_csv("flight-01.csv"));
    assert_eq!(import_stride(500, 100), 5);
}

#[test]
fn import_rates_must_divide() {
    let sound = CheckedArgs { source_rate: 500, sample_rate: 100, eval_fraction: score(0.1) };
    assert_eq!(validate_args(&sound), Ok(()));
    assert_eq!(
        validate_args(&CheckedArgs { sample_rate: 300, ..sound }),
        Err("--source-rate must be divisible by --sample-rate")
    );
    assert_eq!(
        validate_args(&CheckedArgs { sample_rate: 600, ..sound }),
        Err("--source-rate must be >= --sample-rate")
    );
    assert_eq!(
        validate_args(&CheckedArgs { eval_fraction: score(1.0), ..sound }),
        Err("--eval-fraction must be finite and in (0, 1)")
    );
}

fn frames(list: &[(i64, i64)]) -> Vec<FrameIndex> {
    list.iter().map(|(episode_idx, step_idx)| FrameIndex {
        episode_idx: *episode_idx,
        step_idx: *step_idx,
    }).collect()
}

#[test]
fn windows_do_not_cross_episodes() {
    let list = frames(&[(0, 0), (0, 1), (0, 2), (1, 0), (1, 1), (1, 3)]);
    let steps = vec![score(0.01); 6];
    assert!(valid_window(&list, &steps, 0, 2));
    assert!(!valid_window(&list, &steps, 1, 2));
    assert!(!valid_window(&list, &steps, 4, 1));
    assert_eq!(collect_windows(&list, &steps, 1, 1, 9), Ok(vec![0, 1, 3]));
    assert_eq!(collect_windows(&list, &steps, 1, 1, 2), Ok(vec![0, 1]));
    assert!(collect_windows(&list, &steps, 5, 1, 9).is_err());
}

#[test]
fn tuning_takes_the_first_best_trial() {
    let totals = vec![score(3.0), score(1.0), score(1.0), Score::NotANumber];
    assert_eq!(tune_scalar(score(2.0), &totals), Some(1));
    assert_eq!(tune_scalar(score(1.0), &totals), None);
}

#[test]
fn samples_are_pairs_of_one_episode() {
    let episodes = vec![0, 0, 0, 1, 1];
    let steps = vec![score(0.01), Score::NotANumber, score(0.01), score(0.02)];
    assert_eq!(sample_rows(&episodes, &steps), Ok(vec![0, 3]));
    assert_eq!(
        sample_rows(&vec![0], &vec![]),
        Err("dataset produced zero consecutive samples")
    );
}

#[test]
fn candidate_windows_stay_in_their_episode() {
    let episodes = [0, 0, 0, 0, 1, 1, 1, 1].map(Some).to_vec();
    let at = |row, current_row, future_end_row| {
        RowReading::Window(RowWindow { row, current_row, future_end_row })
    };
    assert_eq!(row_window(&episodes, 0, 2, 2), at(0, 1, 3));
    assert_eq!(row_window(&episodes, 1, 2, 2), RowReading::Apart);
    assert_eq!(row_window(&episodes, 6, 2, 2), RowReading::Apart);
    let scanned = scan_rows(&episodes, &vec![0, 1, 4, 5], 2, 2, 2);
    assert_eq!(scanned, vec![at(0, 1, 3), at(4, 5, 7)]);
    assert_eq!(skipped_rows(5, 3), Ok(2));
    assert!(skipped_rows(5, 0).is_err());
}

#[test]
fn unreadable_frames_of_a_window_are_named() {
    let sound = [0, 0, 0, 0, 0, 1].map(Some);
    let reading = |row: usize, unreadable: usize| {
        let mut episodes = sound.to_vec();
        episodes[unreadable] = None;
        row_window(&episodes, row, 3, 2)
    };
    assert_eq!(reading(0, 0), RowReading::Unreadable { row: 0, frame: 0 });
    assert_eq!(reading(0, 2), RowReading::Unreadable { row: 0, frame: 2 });
    assert_eq!(reading(0, 3), RowReading::Unreadable { row: 0, frame: 3 });
    assert_eq!(reading(0, 4), RowReading::Unreadable { row: 0, frame: 4 });
    // A frame of the history between the first and the current one is not looked at.
    assert_eq!(
        reading(0, 1),
        RowReading::Window(RowWindow { row: 0, current_row: 2, future_end_row: 4 })
    );
    // The last frame is of another episode before the one in between is read.
    assert_eq!(reading(1, 4), RowReading::Apart);
    assert_eq!(reading(2, 2), RowReading::Apart);
}

#[test]
fn all_signs_are_tried() {
    let mut sets = sign_sets();
    assert_eq!((sets[0], sets[7]), ((false, false, true), (true, false, false)));
    sets.sort();
    sets.dedup();
    assert_eq!(sets.len(), 8);
}

#[test]
fn fits_end_where_they_settle() {
    assert!(another_pass(0, 3, None));
    assert!(!another_pass(0, 0, None));
    assert!(another_pass(1, 3, Some(score(0.5))));
    assert!(!another_pass(3, 3, Some(score(0.5))));
    assert!(!another_pass(1, 3, Some(score(0.0))));
    let limit = 1e-5f32;
    assert!(another_pass(1, 3, Some(score(f64::from(limit)))));
    let below = f32::from_bits(limit.to_bits() - 1);
    assert!(!another_pass(1, 3, Some(score(f64::from(below)))));
    assert!(another_pass(2, 3, Some(score(f64::NAN))));
}

#[test]
fn rankings_are_stable_and_leave_out_what_is_not_finite() {
    let keys = vec![Some(5), None, Some(-3), Some(5), Some(9)];
    assert_eq!(top_by(&keys, 3, Direction::Ascending), vec![2, 0, 3]);
    assert_eq!(top_by(&keys, 3, Direction::Descending), vec![4, 0, 3]);
    assert_eq!(top_by(&keys, 9, Direction::Descending), vec![4, 0, 3, 2]);
    let list = categories();
    assert_eq!(list[0].name, "hover_like");
    assert_eq!(list[0].direction(), Direction::Ascending);
    assert_eq!(list[7].name, "stress_motion");
    assert_eq!(list[7].direction(), Direction::Descending);
}

#[test]
fn flights_are_looked_for_below_the_home_directory() {
    assert_eq!(
        default_input_dir(Some("/home/pilot")),
        "/home/pilot/.stable_worldmodel/drone-racing-dataset/data/autonomous"
    );
}
