use photomosaic::config_parse::{
    checked_parse, parse, read_args, safety_checks, settle, settle_hazard, ArgError, ArgOutcome,
    ArgSettings, AtlasJsonPath, ConfigError, Hazard, ParseOutcome, RunSettings, Setting,
    DEFAULT_CANDIDATES, DEFAULT_EVOLUTION_CYCLES, DEFAULT_PIXEL_TARGET,
    DEFAULT_SURVIVAL_THRESHOLD, DEFAULT_TOTAL_IMAGES,
};

fn args(a: &[&str]) -> Vec<String> {
    a.iter().map(|s| s.to_string()).collect()
}

fn floats(v: &[String]) -> Vec<bool> {
    v.iter().map(|s| s.parse::<f32>().is_ok()).collect()
}

fn run(a: &[&str]) -> Result<ArgOutcome, ArgError> {
    let v = args(a);
    read_args(&v, &floats(&v))
}

fn settings(a: &[&str]) -> ArgSettings {
    match run(a) {
        Ok(ArgOutcome::Read(s)) => s,
        other => panic!("unexpected outcome {:?}", other),
    }
}

fn full_parse(a: &[&str]) -> Result<ParseOutcome, ArgError> {
    let v = args(a);
    let ok = floats(&v);
    match checked_parse(&v, &ok) {
        Ok(r) => r,
        Err(h) => panic!("hazard {:?}", h),
    }
}

fn run_settings(a: &[&str]) -> RunSettings {
    match full_parse(a) {
        Ok(ParseOutcome::Run(r)) => r,
        other => panic!("unexpected outcome {:?}", other),
    }
}

#[test]
fn no_arguments_keeps_defaults() {
    let s = settings(&["photomosaic"]);
    assert_eq!(s.target_texture, None);
    assert_eq!(s.pixel_target, None);
    assert!(!s.hue_shift && !s.video_gen);
    assert!(matches!(read_args(&Vec::new(), &Vec::new()), Ok(ArgOutcome::Read(_))));
}

#[test]
fn help_and_version_win() {
    assert_eq!(run(&["p", "-h"]).unwrap(), ArgOutcome::ShowHelp);
    assert_eq!(run(&["p", "--help", "-v"]).unwrap(), ArgOutcome::ShowHelp);
    assert_eq!(run(&["p", "-v"]).unwrap(), ArgOutcome::ShowVersion);
    assert_eq!(run(&["p", "--unknown", "--version"]).unwrap(), ArgOutcome::ShowVersion);
    assert_eq!(run(&["-h"]).unwrap(), ArgOutcome::ShowHelp);
}

#[test]
fn flags_are_case_insensitive() {
    let s = settings(&["p", "-H", "-VG"]);
    assert!(s.hue_shift);
    assert!(s.video_gen);
    let s = settings(&["p", "--TARGET", "in.png"]);
    assert_eq!(s.target_texture, Some(2));
}

#[test]
fn path_settings_point_at_their_values() {
    let s = settings(&["p", "-t", "t.png", "-a", "a.png", "-aj", "a.json", "-pl", "logs"]);
    assert_eq!(s.target_texture, Some(2));
    assert_eq!(s.atlas_texture, Some(4));
    assert_eq!(s.atlas_json, Some(6));
    assert_eq!(s.profile_log, Some(8));
}

#[test]
fn numbers_are_parsed() {
    let s = settings(&[
        "p", "-pt", "20000", "--seed", "18446744073709551615", "-st", "+5", "-ec", "10", "-cpg",
        "500", "-ti", "007",
    ]);
    assert_eq!(s.pixel_target, Some(20000));
    assert_eq!(s.seed, Some(u64::MAX));
    assert_eq!(s.survival_threshold, Some(5));
    assert_eq!(s.evolution_cycles, Some(10));
    assert_eq!(s.candidates, Some(500));
    assert_eq!(s.total_images, Some(7));
}

#[test]
fn later_flags_override_earlier() {
    let s = settings(&["p", "-pt", "1", "-pt", "2", "-t", "x", "-t", "y"]);
    assert_eq!(s.pixel_target, Some(2));
    assert_eq!(s.target_texture, Some(8));
}

#[test]
fn bad_integer_is_refused() {
    for bad in ["abc", "4294967296", "", "-1", "+", " 5"] {
        match run(&["p", "-pt", bad]) {
            Err(ArgError::BadInteger { value_at, .. }) => assert_eq!(value_at, 2),
            other => panic!("{:?} gave {:?}", bad, other),
        }
    }
}

#[test]
fn mutation_strength_needs_a_float() {
    assert_eq!(settings(&["p", "-ms", "0.25"]).mutation_strength, Some(2));
    match run(&["p", "-ms", "strong"]) {
        Err(ArgError::BadFloat { value_at }) => assert_eq!(value_at, 2),
        other => panic!("{:?}", other),
    }
}

#[test]
fn missing_value_is_refused() {
    match run(&["p", "-ti"]) {
        Err(ArgError::MissingValue { flag_at, setting }) => {
            assert_eq!(flag_at, 1);
            assert_eq!(setting, Setting::TotalImages);
        }
        other => panic!("{:?}", other),
    }
}

#[test]
fn unknown_parameter_is_refused() {
    match run(&["p", "-t", "x", "--bogus", "-pt", "abc"]) {
        Err(ArgError::UnknownParameter { at }) => assert_eq!(at, 3),
        other => panic!("{:?}", other),
    }
}

#[test]
fn value_taken_whatever_it_looks_like() {
    let s = settings(&["p", "-t", "-s"]);
    assert_eq!(s.target_texture, Some(2));
    assert_eq!(s.seed, None);
}

#[test]
fn safety_checks_adjust_candidates() {
    let a = safety_checks(100, 5, 12).unwrap();
    assert!(!a.raised);
    assert!(a.rounded);
    assert_eq!(a.raised_count, 12);
    assert_eq!(a.count, 15);

    let a = safety_checks(100, 5, 3).unwrap();
    assert!(a.raised);
    assert!(!a.rounded);
    assert_eq!(a.count, 5);

    let a = safety_checks(1, 5, 500).unwrap();
    assert!(!a.raised && !a.rounded);
    assert_eq!(a.count, 500);
}

#[test]
fn safety_checks_refuse_zero_pixel_target() {
    assert_eq!(safety_checks(0, 5, 500), Err(ConfigError::ZeroPixelTarget));
    assert_eq!(safety_checks(0, 0, 7), Err(ConfigError::ZeroPixelTarget));
}

#[test]
fn adjusted_count_is_stable() {
    let first = safety_checks(10, 7, 30).unwrap().count;
    assert_eq!(first, 35);
    assert_eq!(safety_checks(10, 7, first).unwrap().count, first);
}

#[test]
fn parse_fills_in_the_defaults() {
    let r = run_settings(&["photomosaic", "-t", "t.png", "-a", "a.png"]);
    assert_eq!(r.target_texture, Some(2));
    assert_eq!(r.atlas_texture, Some(4));
    assert_eq!(r.atlas_json, AtlasJsonPath::FromAtlasTexture);
    assert_eq!(r.profile_log, None);
    assert_eq!(r.pixel_target, 20000);
    assert_eq!(r.seed, None);
    assert_eq!(r.survival_threshold, 5);
    assert_eq!(r.evolution_cycles, 10);
    assert_eq!(r.candidates, 500);
    assert_eq!(r.total_images, 1000);
    assert_eq!(r.mutation_strength, None);
    assert!(!r.hue_shift && !r.video_gen);
    assert!(!r.adjustment.raised && !r.adjustment.rounded);
    assert_eq!(DEFAULT_PIXEL_TARGET, 20000);
    assert_eq!(DEFAULT_SURVIVAL_THRESHOLD, 5);
    assert_eq!(DEFAULT_EVOLUTION_CYCLES, 10);
    assert_eq!(DEFAULT_CANDIDATES, 500);
    assert_eq!(DEFAULT_TOTAL_IMAGES, 1000);
}

#[test]
fn parse_refuses_zero_pixel_target() {
    match full_parse(&["photomosaic", "-t", "t.png", "-a", "a.png", "-pt", "0"]) {
        Err(ArgError::ZeroPixelTarget) => {}
        other => panic!("{:?}", other),
    }
}

#[test]
fn parse_rounds_candidates_to_the_threshold() {
    let r = run_settings(&["photomosaic", "-t", "t.png", "-a", "a.png", "-cpg", "7", "-st", "5"]);
    assert_eq!(r.candidates, 10);
    assert_eq!(r.survival_threshold, 5);
    assert!(!r.adjustment.raised);
    assert!(r.adjustment.rounded);
    assert_eq!(r.adjustment.raised_count, 7);
    assert_eq!(r.adjustment.requested, 7);
    assert_eq!(r.target_texture, Some(2));
    assert_eq!(r.atlas_texture, Some(4));

    let r = run_settings(&["p", "-cpg", "3", "-st", "4"]);
    assert!(r.adjustment.raised);
    assert!(!r.adjustment.rounded);
    assert_eq!(r.adjustment.requested, 3);
    assert_eq!(r.candidates, 4);
}

#[test]
fn parse_keeps_other_settings() {
    let r = run_settings(&[
        "p", "-aj", "x.json", "-pl", "logs", "-s", "42", "-ec", "3", "-ti", "9", "-ms", "0.5",
        "--hue_shift", "-vg", "-pt", "17",
    ]);
    assert_eq!(r.atlas_json, AtlasJsonPath::Given(2));
    assert_eq!(r.profile_log, Some(4));
    assert_eq!(r.seed, Some(42));
    assert_eq!(r.evolution_cycles, 3);
    assert_eq!(r.total_images, 9);
    assert_eq!(r.mutation_strength, Some(12));
    assert!(r.hue_shift && r.video_gen);
    assert_eq!(r.pixel_target, 17);
}

#[test]
fn empty_atlas_json_falls_back_to_the_atlas_texture() {
    let r = run_settings(&["p", "-a", "foo/atlas2.png", "-aj", ""]);
    assert_eq!(r.atlas_json, AtlasJsonPath::FromAtlasTexture);
    let r = run_settings(&["p", "-a", "foo/atlas2.png"]);
    assert_eq!(r.atlas_json, AtlasJsonPath::FromAtlasTexture);
}

#[test]
fn parse_answers_help_version_and_errors_first() {
    assert_eq!(full_parse(&["p", "-pt", "0", "--help"]).unwrap(), ParseOutcome::ShowHelp);
    assert_eq!(full_parse(&["p", "-pt", "0", "-v"]).unwrap(), ParseOutcome::ShowVersion);
    match full_parse(&["p", "-pt", "0", "--bogus"]) {
        Err(ArgError::UnknownParameter { at }) => assert_eq!(at, 3),
        other => panic!("{:?}", other),
    }
    match full_parse(&["p", "-pt", "0", "-st", "0"]) {
        Err(ArgError::ZeroPixelTarget) => {}
        other => panic!("{:?}", other),
    }
}

#[test]
fn hazards_are_reported_before_parsing() {
    let v = args(&["p", "-st", "0"]);
    assert_eq!(checked_parse(&v, &floats(&v)).err(), Some(Hazard::ZeroThreshold));
    let big = usize::MAX.to_string();
    let v = args(&["p", "-st", "2", "-cpg", &big]);
    assert_eq!(checked_parse(&v, &floats(&v)).err(), Some(Hazard::Overflow));
    let v = args(&["p", "-st", "1", "-cpg", &big]);
    assert!(checked_parse(&v, &floats(&v)).is_ok());
}

#[test]
fn settle_hazard_matches_the_checks() {
    let none = settings(&["p"]);
    assert_eq!(settle_hazard(&none), None);
    let s = ArgSettings { survival_threshold: Some(0), ..none };
    assert_eq!(settle_hazard(&s), Some(Hazard::ZeroThreshold));
    let s = ArgSettings { survival_threshold: Some(0), pixel_target: Some(0), ..none };
    assert_eq!(settle_hazard(&s), None);
    let s = ArgSettings { survival_threshold: Some(4), candidates: Some(usize::MAX - 1), ..none };
    assert_eq!(settle_hazard(&s), Some(Hazard::Overflow));
    let s = ArgSettings { survival_threshold: Some(4), candidates: Some(usize::MAX - 3), ..none };
    assert_eq!(settle_hazard(&s), None);
}

#[test]
fn settle_uses_direct_parse() {
    let v = args(&["p", "-cpg", "12"]);
    let ok = floats(&v);
    let s = match read_args(&v, &ok) {
        Ok(ArgOutcome::Read(s)) => s,
        other => panic!("{:?}", other),
    };
    let r = settle(&v, s).unwrap();
    assert_eq!(r.candidates, 15);
    assert_eq!(parse(&v, &ok).unwrap(), ParseOutcome::Run(r));
    let z = ArgSettings { pixel_target: Some(0), ..s };
    assert_eq!(settle(&v, z), Err(ConfigError::ZeroPixelTarget));
}
