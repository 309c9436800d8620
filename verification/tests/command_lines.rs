use lewm_tools::cli::{next_parse, scan, CliError, FlagSpec, Token, ValueKind};
use lewm_tools::drone_dynamics_stats;
use lewm_tools::drone_fit_plant;
use lewm_tools::drone_sim;
use lewm_tools::order::Score;
use lewm_tools::paths::{is_same_optional_path, is_same_path, join, stored_dir};
use lewm_tools::skyjepa_drone_sim;
use lewm_tools::text::{
    format_padded, parse_size_list, parse_u64, parse_usize, split, split_lines, strip_prefix,
    strip_suffix, trim,
};
use lewm_tools::viewer;

fn score(value: f64) -> Score {
    if value.is_nan() {
        return Score::NotANumber;
    }
    let magnitude = (value.to_bits() & 0x7fff_ffff_ffff_ffff) as i64;
    Score::Key(if value.is_sign_negative() { -magnitude } else { magnitude })
}

fn tokens(line: &[&str]) -> Vec<Token> {
    line.iter()
        .map(|text| Token {
            text: text.to_string(),
            fraction: text.parse::<f32>().ok().map(|value| score(value as f64)),
            device: text.starts_with("cuda") || *text == "cpu",
            scenario: matches!(*text, "hover" | "circle" | "figure-eight"),
        })
        .collect()
}

fn flags() -> Vec<FlagSpec> {
    vec![
        FlagSpec { name: "--count", kind: ValueKind::Size },
        FlagSpec { name: "--loud", kind: ValueKind::Switch },
        FlagSpec { name: "--rate", kind: ValueKind::Fraction },
    ]
}

#[test]
fn later_values_replace_earlier_ones() {
    let line = tokens(&["--count", "3", "--loud", "--count", "4"]);
    assert_eq!(scan(&flags(), true, &line), Ok(Some(vec![Some(4), Some(2), None])));
}

#[test]
fn faulty_lines_name_the_place() {
    assert_eq!(scan(&flags(), true, &tokens(&["--what"])), Err(CliError::Unknown { at: 0 }));
    assert_eq!(
        scan(&flags(), true, &tokens(&["--loud", "--count"])),
        Err(CliError::Missing { at: 1 })
    );
    assert_eq!(
        scan(&flags(), true, &tokens(&["--count", "-1"])),
        Err(CliError::Invalid { at: 0 })
    );
    assert_eq!(
        scan(&flags(), true, &tokens(&["--rate", "fast"])),
        Err(CliError::Invalid { at: 0 })
    );
    assert_eq!(next_parse(&tokens(&["--count", "7"]), 0, ValueKind::Size), Ok(1));
}

#[test]
fn help_stops_the_reading_only_where_there_is_help() {
    assert_eq!(scan(&flags(), true, &tokens(&["-h", "--what"])), Ok(None));
    assert_eq!(scan(&flags(), false, &tokens(&["-h"])), Err(CliError::Unknown { at: 0 }));
}

#[test]
fn plant_fit_has_its_defaults_and_limits() {
    match drone_fit_plant::Args::parse(&tokens(&[]), Some("/home/me")) {
        Ok(drone_fit_plant::Request::Run(args)) => {
            assert_eq!(
                args.dataset_dir,
                "/home/me/.stable_worldmodel/le-wm-nv-data/drone-racing-autonomous-100hz-pose16"
            );
            assert_eq!((args.window_steps, args.max_windows, args.stride), (30, 512, 25));
            assert_eq!(args.sim_hz, score(1000.0));
            assert_eq!(args.passes, 3);
        }
        other => panic!("{other:?}"),
    }
    assert_eq!(
        drone_fit_plant::Args::parse(&tokens(&["--stride", "0"]), None).unwrap_err(),
        drone_fit_plant::ArgsError::Stride
    );
    assert_eq!(
        drone_fit_plant::Args::parse(&tokens(&["--sim-hz", "nan"]), None).unwrap_err(),
        drone_fit_plant::ArgsError::SimHz
    );
    assert!(matches!(
        drone_fit_plant::Args::parse(&tokens(&["--help"]), None),
        Ok(drone_fit_plant::Request::Help)
    ));
}

#[test]
fn dynamics_statistics_need_a_positive_gravity() {
    match drone_dynamics_stats::Args::parse(&tokens(&["--gravity", "1.5"]), None) {
        Ok(drone_dynamics_stats::Request::Run(args)) => assert_eq!(args.gravity, score(1.5)),
        other => panic!("{other:?}"),
    }
    assert_eq!(
        drone_dynamics_stats::Args::parse(&tokens(&["--gravity", "0"]), None).unwrap_err(),
        drone_dynamics_stats::ArgsError::Gravity
    );
}

#[test]
fn the_viewer_needs_a_replay() {
    let args = viewer::Args::parse(&tokens(&["--replay", "a.json", "--replay", "b.json"])).unwrap();
    assert_eq!(args.replay, "b.json");
    assert_eq!(viewer::Args::parse(&tokens(&[])).unwrap_err(), viewer::ArgsError::NoReplay);
    assert_eq!(
        viewer::Args::parse(&tokens(&["--replay"])).unwrap_err(),
        viewer::ArgsError::Line(CliError::Missing { at: 0 })
    );
    assert_eq!(
        viewer::Args::parse(&tokens(&["--help"])).unwrap_err(),
        viewer::ArgsError::Line(CliError::Unknown { at: 0 })
    );
}

#[test]
fn the_drone_simulator_has_its_defaults_and_limits() {
    match drone_sim::Args::parse(&tokens(&["--mass", "0.5"])) {
        Ok(drone_sim::Request::Run(args)) => {
            assert_eq!(args.mass, score(0.5));
            assert_eq!(args.gravity, score(9.81f32 as f64));
            assert_eq!(args.linear_drag, score(0.18f32 as f64));
            assert_eq!(args.quadratic_drag, score(0.03f32 as f64));
            assert_eq!(args.max_thrust_weight, score(2.2f32 as f64));
            assert_eq!(args.camera_height, score(2.2f32 as f64));
            assert_eq!((args.max_frame_steps, args.max_trail), (20, 2400));
        }
        other => panic!("{other:?}"),
    }
    let refused = |line: &[&str]| drone_sim::Args::parse(&tokens(line)).unwrap_err();
    assert_eq!(refused(&["--sim-hz", "0"]), drone_sim::ArgsError::SimHz);
    assert_eq!(refused(&["--max-frame-steps", "0"]), drone_sim::ArgsError::MaxFrameSteps);
    assert_eq!(refused(&["--time-scale", "-1"]), drone_sim::ArgsError::TimeScale);
    assert_eq!(refused(&["--mass", "nan"]), drone_sim::ArgsError::Mass);
    assert_eq!(refused(&["--gravity", "0"]), drone_sim::ArgsError::Gravity);
    assert_eq!(refused(&["--hover-throttle", "0.01"]), drone_sim::ArgsError::HoverThrottle);
    assert_eq!(refused(&["--hover-throttle", "1.01"]), drone_sim::ArgsError::HoverThrottle);
    assert_eq!(refused(&["--max-thrust-weight", "0.9"]), drone_sim::ArgsError::MaxThrustWeight);
    assert_eq!(refused(&["--max-trail", "1"]), drone_sim::ArgsError::MaxTrail);
    assert_eq!(refused(&["--camera-distance", "0.25"]), drone_sim::ArgsError::CameraDistance);
    assert_eq!(refused(&["--camera-height", "-0.1"]), drone_sim::ArgsError::CameraHeight);
    assert_eq!(refused(&["--camera-spring", "0"]), drone_sim::ArgsError::CameraSpring);
}

#[test]
fn the_skyjepa_simulator_reads_its_line() {
    let line = tokens(&[
        "--warm-start",
        "shifted-residual",
        "--randomize-domain",
        "--scenario",
        "hover",
        "--samples",
        "64",
    ]);
    match skyjepa_drone_sim::Args::parse(&line, Some("/h")) {
        Ok(skyjepa_drone_sim::Request::Run(args)) => {
            assert_eq!(args.warm_start, skyjepa_drone_sim::WarmStart::ShiftedResidual);
            assert!(args.randomize_domain);
            assert_eq!(args.scenario, Some(4));
            assert_eq!(args.device, None);
            assert_eq!((args.samples, args.horizon, args.max_trail), (64, 15, 2400));
            assert_eq!((args.planner_seed, args.domain_seed), (7, 9001));
            assert_eq!(
                args.checkpoint_dir,
                "/h/.stable_worldmodel/le-wm-nv-runs/skyjepa-drone-state18-20hz"
            );
            assert_eq!(args.validate(true), Ok(()));
            assert_eq!(args.validate(false), Err("checkpoint-dir does not exist"));
        }
        other => panic!("{other:?}"),
    }
    assert_eq!(
        skyjepa_drone_sim::Args::parse(&tokens(&["--warm-start", "cold"]), None).unwrap_err(),
        CliError::Invalid { at: 0 }
    );
    match skyjepa_drone_sim::Args::parse(&tokens(&["--simulation-rate-hz", "30"]), None) {
        Ok(skyjepa_drone_sim::Request::Run(args)) => assert_eq!(
            args.validate(true),
            Err("simulation-rate-hz must be an integer multiple of 20")
        ),
        other => panic!("{other:?}"),
    }
}

#[test]
fn numbers_are_read_as_the_standard_library_reads_them() {
    for text in ["0", "7", "007", "+5", "", "+", "-1", " 1", "1_0", "18446744073709551615",
        "18446744073709551616", "99999999999999999999999"]
    {
        assert_eq!(parse_u64(text), text.parse::<u64>().ok(), "{text}");
        assert_eq!(parse_usize(text), text.parse::<usize>().ok(), "{text}");
    }
}

#[test]
fn padded_numbers_read_back() {
    for value in [0u64, 7, 12345678, 123456789] {
        assert_eq!(format_padded(value, 8), format!("{value:08}"));
        assert_eq!(parse_u64(&format_padded(value, 8)), Some(value));
    }
}

#[test]
fn texts_are_taken_apart() {
    assert_eq!(trim(" \t a b\n\u{3000}"), "a b");
    assert_eq!(split("a,,b", ','), vec!["a", "", "b"]);
    assert_eq!(strip_prefix("checkpoint-3", "checkpoint-"), Some("3".to_string()));
    assert_eq!(strip_suffix("3.bin", ".txt"), None);
    assert_eq!(parse_size_list("3, 4,,5"), Ok(vec![3, 4, 5]));
    assert_eq!(parse_size_list("3,x"), Err("x".to_string()));
    for text in ["", "a", "a\n", "a\nb", "a\r\nb\r\n", "\n\n", "a\rb\n"] {
        assert_eq!(split_lines(text), text.lines().collect::<Vec<_>>(), "{text:?}");
    }
}

#[test]
fn paths_are_joined_as_the_standard_library_joins_them() {
    for (base, name) in [("a", "b"), ("a/", "b"), ("", "b"), ("a", "/b"), ("/", "b"), ("a", "")] {
        let expected = std::path::Path::new(base).join(name);
        assert_eq!(join(base, name), expected.to_str().unwrap(), "{base} {name}");
    }
    assert_eq!(stored_dir(None, "runs", "x"), "./.stable_worldmodel/runs/x");
}

#[test]
fn paths_agree_by_their_components() {
    for (left, right) in [
        ("a//b", "a/b"),
        ("a/b/", "a/b"),
        ("a/./b", "a/b"),
        ("a/b/.", "a/b"),
        ("/./a", "/a"),
        ("//a", "/a"),
        ("./a", "./a/"),
        ("", ""),
    ] {
        assert_eq!(std::path::Path::new(left), std::path::Path::new(right));
        assert!(is_same_path(left, right), "{left} {right}");
    }
    for (left, right) in [("./a", "a"), ("/a", "a"), ("a/../b", "b"), ("a", "b"), ("", "."), ("", "/")]
    {
        assert_ne!(std::path::Path::new(left), std::path::Path::new(right));
        assert!(!is_same_path(left, right), "{left} {right}");
    }
    let path = |text: &str| Some(text.to_string());
    assert!(is_same_optional_path(&path("a/"), &path("a")));
    assert!(is_same_optional_path(&None, &None));
    assert!(!is_same_optional_path(&None, &path("a")));
}
