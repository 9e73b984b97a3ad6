use vstd::prelude::*;
use std::num::ParseIntError;

use crate::text::{
    lowercase, parse_u32, parse_u64, parse_usize, parses_unsigned, same_text, to_lowercase,
    unsigned_value,
};

verus! {

/// A program setting that a command-line flag names.
#[derive(Clone, Copy, PartialEq, Eq, Structural, Debug)]
pub enum Setting {
    TargetTexture,
    AtlasTexture,
    AtlasJson,
    ProfileLog,
    PixelTarget,
    Seed,
    SurvivalThreshold,
    EvolutionCycles,
    Candidates,
    TotalImages,
    MutationStrength,
    HueShift,
    VideoGen,
}

/// The setting a (lowercased) flag names, if any.
pub open spec fn setting_for(flag: Seq<char>) -> Option<Setting> {
    if flag == "-t"@ || flag == "--target"@ {
        Some(Setting::TargetTexture)
    } else if flag == "-a"@ || flag == "--atlas"@ {
        Some(Setting::AtlasTexture)
    } else if flag == "-aj"@ || flag == "--atlas_json"@ {
        Some(Setting::AtlasJson)
    } else if flag == "-pl"@ || flag == "--profile_log"@ {
        Some(Setting::ProfileLog)
    } else if flag == "-pt"@ || flag == "--pixel_target"@ {
        Some(Setting::PixelTarget)
    } else if flag == "-s"@ || flag == "--seed"@ {
        Some(Setting::Seed)
    } else if flag == "-st"@ || flag == "--survival_threshold"@ {
        Some(Setting::SurvivalThreshold)
    } else if flag == "-ec"@ || flag == "--evolution_cycles"@ {
        Some(Setting::EvolutionCycles)
    } else if flag == "-cpg"@ || flag == "--candidates"@ {
        Some(Setting::Candidates)
    } else if flag == "-ti"@ || flag == "--total_images"@ {
        Some(Setting::TotalImages)
    } else if flag == "-ms"@ || flag == "--mutation_strength"@ {
        Some(Setting::MutationStrength)
    } else if flag == "-h"@ || flag == "--hue_shift"@ {
        Some(Setting::HueShift)
    } else if flag == "-vg"@ || flag == "--video_gen"@ {
        Some(Setting::VideoGen)
    } else {
        None
    }
}

/// The settings given on the command line. Paths and the mutation strength are
/// given as the position of the argument that holds them; the others by value.
/// `None` means the setting was not given and keeps its default.
#[derive(Clone, Copy, PartialEq, Eq, Debug)]
pub struct ArgSettings {
    pub target_texture: Option<usize>,
    pub atlas_texture: Option<usize>,
    pub atlas_json: Option<usize>,
    pub profile_log: Option<usize>,
    pub pixel_target: Option<u32>,
    pub seed: Option<u64>,
    pub survival_threshold: Option<usize>,
    pub evolution_cycles: Option<usize>,
    pub candidates: Option<usize>,
    pub total_images: Option<usize>,
    pub mutation_strength: Option<usize>,
    pub hue_shift: bool,
    pub video_gen: bool,
}

/// No setting given.
pub open spec fn no_settings() -> ArgSettings {
    ArgSettings {
        target_texture: None,
        atlas_texture: None,
        atlas_json: None,
        profile_log: None,
        pixel_target: None,
        seed: None,
        survival_threshold: None,
        evolution_cycles: None,
        candidates: None,
        total_images: None,
        mutation_strength: None,
        hue_shift: false,
        video_gen: false,
    }
}

/// What the command line asks for, as read before the defaults and checks.
#[derive(Clone, Copy, PartialEq, Eq, Debug)]
pub enum ArgOutcome {
    /// `-h` or `--help` was given: print the help text and stop.
    ShowHelp,
    /// `-v` or `--version` was given: print the version and stop.
    ShowVersion,
    /// These settings were given.
    Read(ArgSettings),
}

/// Why a command line was refused, by the positions of the arguments at fault.
#[derive(Clone, Copy, PartialEq, Eq, Debug)]
pub enum ArgProblem {
    /// The flag at `flag_at` takes a value but is the last argument.
    MissingValue { flag_at: usize, setting: Setting },
    /// The value at `value_at` is no integer of the setting's type.
    BadInteger { value_at: usize },
    /// The value at `value_at` is no floating-point number.
    BadFloat { value_at: usize },
    /// The argument at `at` is no known flag.
    UnknownParameter { at: usize },
    /// The pixel target, given or by default, is zero.
    ZeroPixelTarget,
}

/// A refused command line, with the error of the failed integer parse.
#[derive(Debug)]
pub enum ArgError {
    MissingValue { flag_at: usize, setting: Setting },
    BadInteger { value_at: usize, error: ParseIntError },
    BadFloat { value_at: usize },
    UnknownParameter { at: usize },
    ZeroPixelTarget,
}

impl ArgError {
    /// The problem without the parse error it carries.
    pub open spec fn problem(&self) -> ArgProblem {
        match *self {
            ArgError::MissingValue { flag_at, setting } => ArgProblem::MissingValue {
                flag_at,
                setting,
            },
            ArgError::BadInteger { value_at, .. } => ArgProblem::BadInteger { value_at },
            ArgError::BadFloat { value_at } => ArgProblem::BadFloat { value_at },
            ArgError::UnknownParameter { at } => ArgProblem::UnknownParameter { at },
            ArgError::ZeroPixelTarget => ArgProblem::ZeroPixelTarget,
        }
    }
}

/// The settings after the setting named by a flag takes the value at `at`, or
/// the problem with that value.
pub open spec fn with_value(
    acc: ArgSettings,
    setting: Setting,
    at: int,
    value: Seq<char>,
    float_ok: bool,
) -> Result<ArgSettings, ArgProblem> {
    let i = at as usize;
    match setting {
        Setting::TargetTexture => Ok(ArgSettings { target_texture: Some(i), ..acc }),
        Setting::AtlasTexture => Ok(ArgSettings { atlas_texture: Some(i), ..acc }),
        Setting::AtlasJson => Ok(ArgSettings { atlas_json: Some(i), ..acc }),
        Setting::ProfileLog => Ok(ArgSettings { profile_log: Some(i), ..acc }),
        Setting::PixelTarget => if parses_unsigned(value, u32::MAX as int) {
            Ok(ArgSettings { pixel_target: Some(unsigned_value(value)->Some_0 as u32), ..acc })
        } else {
            Err(ArgProblem::BadInteger { value_at: i })
        },
        Setting::Seed => if parses_unsigned(value, u64::MAX as int) {
            Ok(ArgSettings { seed: Some(unsigned_value(value)->Some_0 as u64), ..acc })
        } else {
            Err(ArgProblem::BadInteger { value_at: i })
        },
        Setting::SurvivalThreshold => if parses_unsigned(value, usize::MAX as int) {
            Ok(
                ArgSettings {
                    survival_threshold: Some(unsigned_value(value)->Some_0 as usize),
                    ..acc
                },
            )
        } else {
            Err(ArgProblem::BadInteger { value_at: i })
        },
        Setting::EvolutionCycles => if parses_unsigned(value, usize::MAX as int) {
            Ok(
                ArgSettings {
                    evolution_cycles: Some(unsigned_value(value)->Some_0 as usize),
                    ..acc
                },
            )
        } else {
            Err(ArgProblem::BadInteger { value_at: i })
        },
        Setting::Candidates => if parses_unsigned(value, usize::MAX as int) {
            Ok(ArgSettings { candidates: Some(unsigned_value(value)->Some_0 as usize), ..acc })
        } else {
            Err(ArgProblem::BadInteger { value_at: i })
        },
        Setting::TotalImages => if parses_unsigned(value, usize::MAX as int) {
            Ok(ArgSettings { total_images: Some(unsigned_value(value)->Some_0 as usize), ..acc })
        } else {
            Err(ArgProblem::BadInteger { value_at: i })
        },
        Setting::MutationStrength => if float_ok {
            Ok(ArgSettings { mutation_strength: Some(i), ..acc })
        } else {
            Err(ArgProblem::BadFloat { value_at: i })
        },
        Setting::HueShift => Ok(ArgSettings { hue_shift: true, ..acc }),
        Setting::VideoGen => Ok(ArgSettings { video_gen: true, ..acc }),
    }
}

/// Reads the flags from position `i` on, left to right, into `acc`; a flag
/// given twice keeps its last value, and the first faulty argument stops it.
pub open spec fn scan_args(
    args: Seq<Seq<char>>,
    float_ok: Seq<bool>,
    i: int,
    acc: ArgSettings,
) -> Result<ArgSettings, ArgProblem>
    decreases args.len() - i,
{
    if i < 0 || i >= args.len() {
        Ok(acc)
    } else {
        match setting_for(lowercase(args[i])) {
            None => Err(ArgProblem::UnknownParameter { at: i as usize }),
            Some(Setting::HueShift) => scan_args(
                args,
                float_ok,
                i + 1,
                ArgSettings { hue_shift: true, ..acc },
            ),
            Some(Setting::VideoGen) => scan_args(
                args,
                float_ok,
                i + 1,
                ArgSettings { video_gen: true, ..acc },
            ),
            Some(s) => if i + 1 >= args.len() {
                Err(ArgProblem::MissingValue { flag_at: i as usize, setting: s })
            } else {
                match with_value(acc, s, i + 1, args[i + 1], float_ok[i + 1]) {
                    Ok(a) => scan_args(args, float_ok, i + 2, a),
                    Err(e) => Err(e),
                }
            },
        }
    }
}

/// The atlas json path, if given, is the value of an argument before `n`.
pub open spec fn json_within(s: ArgSettings, n: nat) -> bool {
    s.atlas_json matches Some(i) ==> i < n
}

/// Some argument is exactly `a` or `b`.
pub open spec fn any_arg_is(args: Seq<Seq<char>>, a: Seq<char>, b: Seq<char>) -> bool {
    exists|j: int| 0 <= j < args.len() && (#[trigger] args[j] == a || args[j] == b)
}

/// What a command line gives, read flag by flag. `args[0]` is the program's
/// own name: it is looked at for the help and version flags, but not read as a
/// setting.
pub open spec fn read_outcome(args: Seq<Seq<char>>, float_ok: Seq<bool>) -> Result<
    ArgOutcome,
    ArgProblem,
> {
    if any_arg_is(args, "-h"@, "--help"@) {
        Ok(ArgOutcome::ShowHelp)
    } else if any_arg_is(args, "-v"@, "--version"@) {
        Ok(ArgOutcome::ShowVersion)
    } else {
        match scan_args(args, float_ok, 1, no_settings()) {
            Ok(s) => Ok(ArgOutcome::Read(s)),
            Err(e) => Err(e),
        }
    }
}

/// Asking for help anywhere on the command line, the program's name included,
/// shows the help whatever else is given; asking for the version does the same
/// when help is not asked for. Settings are read only when neither is.
pub proof fn lemma_help_and_version_come_first(args: Seq<Seq<char>>, float_ok: Seq<bool>)
    ensures
        any_arg_is(args, "-h"@, "--help"@) ==> read_outcome(args, float_ok) == Ok::<
            ArgOutcome,
            ArgProblem,
        >(ArgOutcome::ShowHelp),
        !any_arg_is(args, "-h"@, "--help"@) && any_arg_is(args, "-v"@, "--version"@)
            ==> read_outcome(args, float_ok) == Ok::<ArgOutcome, ArgProblem>(
            ArgOutcome::ShowVersion,
        ),
        read_outcome(args, float_ok) matches Ok(ArgOutcome::Read(_)) ==> !any_arg_is(
            args,
            "-h"@,
            "--help"@,
        ) && !any_arg_is(args, "-v"@, "--version"@),
{
}

/// The texts of the arguments.
pub open spec fn arg_texts(args: Seq<String>) -> Seq<Seq<char>> {
    args.map_values(|s: String| s@)
}

fn empty_settings() -> (result: ArgSettings)
    ensures
        result == no_settings(),
{
    ArgSettings {
        target_texture: None,
        atlas_texture: None,
        atlas_json: None,
        profile_log: None,
        pixel_target: None,
        seed: None,
        survival_threshold: None,
        evolution_cycles: None,
        candidates: None,
        total_images: None,
        mutation_strength: None,
        hue_shift: false,
        video_gen: false,
    }
}

/// The setting a lowercased flag names.
fn flag_setting(flag: &str) -> (result: Option<Setting>)
    ensures
        result == setting_for(flag@),
{
    if same_text(flag, "-t") || same_text(flag, "--target") {
        Some(Setting::TargetTexture)
    } else if same_text(flag, "-a") || same_text(flag, "--atlas") {
        Some(Setting::AtlasTexture)
    } else if same_text(flag, "-aj") || same_text(flag, "--atlas_json") {
        Some(Setting::AtlasJson)
    } else if same_text(flag, "-pl") || same_text(flag, "--profile_log") {
        Some(Setting::ProfileLog)
    } else if same_text(flag, "-pt") || same_text(flag, "--pixel_target") {
        Some(Setting::PixelTarget)
    } else if same_text(flag, "-s") || same_text(flag, "--seed") {
        Some(Setting::Seed)
    } else if same_text(flag, "-st") || same_text(flag, "--survival_threshold") {
        Some(Setting::SurvivalThreshold)
    } else if same_text(flag, "-ec") || same_text(flag, "--evolution_cycles") {
        Some(Setting::EvolutionCycles)
    } else if same_text(flag, "-cpg") || same_text(flag, "--candidates") {
        Some(Setting::Candidates)
    } else if same_text(flag, "-ti") || same_text(flag, "--total_images") {
        Some(Setting::TotalImages)
    } else if same_text(flag, "-ms") || same_text(flag, "--mutation_strength") {
        Some(Setting::MutationStrength)
    } else if same_text(flag, "-h") || same_text(flag, "--hue_shift") {
        Some(Setting::HueShift)
    } else if same_text(flag, "-vg") || same_text(flag, "--video_gen") {
        Some(Setting::VideoGen)
    } else {
        None
    }
}

/// Whether some argument is exactly `a` or `b`.
fn find_arg(args: &Vec<String>, a: &str, b: &str) -> (result: bool)
    ensures
        result == any_arg_is(arg_texts(args@), a@, b@),
{
    let ghost texts = arg_texts(args@);
    let mut j: usize = 0;
    while j < args.len()
        invariant
            j <= args@.len(),
            texts == arg_texts(args@),
            forall|k: int| 0 <= k < j ==> !(#[trigger] texts[k] == a@ || texts[k] == b@),
        decreases args@.len() - j,
    {
        let s = args[j].as_str();
        if same_text(s, a) || same_text(s, b) {
            assert(texts[j as int] == a@ || texts[j as int] == b@);
            return true;
        }
        j = j + 1;
    }
    false
}

/// The settings after the setting named by the flag at `at - 1` takes the value
/// at `at`.
fn apply_value(
    acc: ArgSettings,
    setting: Setting,
    args: &Vec<String>,
    at: usize,
    float_ok: bool,
) -> (result: Result<ArgSettings, ArgError>)
    requires
        at < args@.len(),
    ensures
        match result {
            Ok(a) => with_value(acc, setting, at as int, args@[at as int]@, float_ok) == Ok::<
                ArgSettings,
                ArgProblem,
            >(a),
            Err(e) => with_value(acc, setting, at as int, args@[at as int]@, float_ok) == Err::<
                ArgSettings,
                ArgProblem,
            >(e.problem()),
        },
{
    let value = args[at].as_str();
    match setting {
        Setting::TargetTexture => Ok(ArgSettings { target_texture: Some(at), ..acc }),
        Setting::AtlasTexture => Ok(ArgSettings { atlas_texture: Some(at), ..acc }),
        Setting::AtlasJson => Ok(ArgSettings { atlas_json: Some(at), ..acc }),
        Setting::ProfileLog => Ok(ArgSettings { profile_log: Some(at), ..acc }),
        Setting::PixelTarget => match parse_u32(value) {
            Ok(v) => Ok(ArgSettings { pixel_target: Some(v), ..acc }),
            Err(error) => Err(ArgError::BadInteger { value_at: at, error }),
        },
        Setting::Seed => match parse_u64(value) {
            Ok(v) => Ok(ArgSettings { seed: Some(v), ..acc }),
            Err(error) => Err(ArgError::BadInteger { value_at: at, error }),
        },
        Setting::SurvivalThreshold => match parse_usize(value) {
            Ok(v) => Ok(ArgSettings { survival_threshold: Some(v), ..acc }),
            Err(error) => Err(ArgError::BadInteger { value_at: at, error }),
        },
        Setting::EvolutionCycles => match parse_usize(value) {
            Ok(v) => Ok(ArgSettings { evolution_cycles: Some(v), ..acc }),
            Err(error) => Err(ArgError::BadInteger { value_at: at, error }),
        },
        Setting::Candidates => match parse_usize(value) {
            Ok(v) => Ok(ArgSettings { candidates: Some(v), ..acc }),
            Err(error) => Err(ArgError::BadInteger { value_at: at, error }),
        },
        Setting::TotalImages => match parse_usize(value) {
            Ok(v) => Ok(ArgSettings { total_images: Some(v), ..acc }),
            Err(error) => Err(ArgError::BadInteger { value_at: at, error }),
        },
        Setting::MutationStrength => if float_ok {
            Ok(ArgSettings { mutation_strength: Some(at), ..acc })
        } else {
            Err(ArgError::BadFloat { value_at: at })
        },
        Setting::HueShift => Ok(ArgSettings { hue_shift: true, ..acc }),
        Setting::VideoGen => Ok(ArgSettings { video_gen: true, ..acc }),
    }
}

/// Reads the command line `args`, the program's name first, flag by flag.
/// `float_ok[i]` tells whether `args[i]` parses as a floating-point number,
/// which only the caller can check.
pub fn read_args(args: &Vec<String>, float_ok: &Vec<bool>) -> (result: Result<ArgOutcome, ArgError>)
    requires
        float_ok@.len() == args@.len(),
    ensures
        match result {
            Ok(o) => read_outcome(arg_texts(args@), float_ok@) == Ok::<ArgOutcome, ArgProblem>(o),
            Err(e) => read_outcome(arg_texts(args@), float_ok@) == Err::<ArgOutcome, ArgProblem>(
                e.problem(),
            ),
        },
        result matches Ok(ArgOutcome::Read(s)) ==> json_within(s, args@.len()),
{
    let ghost texts = arg_texts(args@);
    // If -h or -v are passed, we just print value and exit program
    if find_arg(args, "-h", "--help") {
        return Ok(ArgOutcome::ShowHelp);
    } else if find_arg(args, "-v", "--version") {
        return Ok(ArgOutcome::ShowVersion);
    }
    let mut acc = empty_settings();
    let mut i: usize = 1;
    while i < args.len()
        invariant
            1 <= i,
            i <= args@.len() + 1,
            texts == arg_texts(args@),
            float_ok@.len() == args@.len(),
            !any_arg_is(texts, "-h"@, "--help"@),
            !any_arg_is(texts, "-v"@, "--version"@),
            scan_args(texts, float_ok@, 1, no_settings()) == scan_args(texts, float_ok@, i as int, acc),
            json_within(acc, args@.len()),
        decreases args@.len() + 1 - i,
    {
        let flag = to_lowercase(args[i].as_str());
        let setting = flag_setting(flag.as_str());
        proof {
            assert(texts[i as int] == args@[i as int]@);
        }
        match setting {
            None => {
                return Err(ArgError::UnknownParameter { at: i });
            },
            Some(Setting::HueShift) => {
                acc = ArgSettings { hue_shift: true, ..acc };
                i = i + 1;
            },
            Some(Setting::VideoGen) => {
                acc = ArgSettings { video_gen: true, ..acc };
                i = i + 1;
            },
            Some(s) => {
                if i + 1 >= args.len() {
                    return Err(ArgError::MissingValue { flag_at: i, setting: s });
                }
                proof {
                    assert(texts[i + 1] == args@[i + 1]@);
                }
                match apply_value(acc, s, args, i + 1, float_ok[i + 1]) {
                    Ok(a) => {
                        acc = a;
                        i = i + 2;
                    },
                    Err(e) => {
                        return Err(e);
                    },
                }
            },
        }
    }
    Ok(ArgOutcome::Read(acc))
}

/// Why the configuration was refused.
#[derive(Clone, Copy, PartialEq, Eq, Structural, Debug)]
pub enum ConfigError {
    /// The pixel target is zero.
    ZeroPixelTarget,
}

/// How the candidate count was brought in line with the survival threshold.
#[derive(Clone, Copy, PartialEq, Eq, Structural, Debug)]
pub struct CandidateAdjustment {
    /// The count asked for.
    pub requested: usize,
    /// The count was below the threshold and was raised to it.
    pub raised: bool,
    /// The count after raising, before rounding.
    pub raised_count: usize,
    /// The count was no multiple of the threshold and was rounded up.
    pub rounded: bool,
    /// The final count.
    pub count: usize,
}

/// `candidates` raised to at least `threshold`.
pub open spec fn raised_count(candidates: int, threshold: int) -> int {
    if candidates < threshold {
        threshold
    } else {
        candidates
    }
}

/// The candidate count the program runs with: raised to the survival
/// threshold, then rounded up to a multiple of it.
pub open spec fn adjusted_count(candidates: int, threshold: int) -> int {
    let c = raised_count(candidates, threshold);
    if c % threshold == 0 {
        c
    } else {
        c + (threshold - c % threshold)
    }
}

/// Checks the pixel target and adjusts the candidate count: it must be at least
/// the survival threshold and a multiple of it.
pub fn safety_checks(pixel_target: u32, survival_threshold: usize, candidates_per_gen: usize) -> (result:
    Result<CandidateAdjustment, ConfigError>)
    requires
        pixel_target > 0 ==> survival_threshold > 0,
        pixel_target > 0 ==> adjusted_count(candidates_per_gen as int, survival_threshold as int)
            <= usize::MAX,
    ensures
        result is Err <==> pixel_target == 0,
        result matches Err(e) ==> e == ConfigError::ZeroPixelTarget,
        result matches Ok(a) ==> {
            &&& a.requested == candidates_per_gen
            &&& a.raised == (candidates_per_gen < survival_threshold)
            &&& a.raised_count == raised_count(
                candidates_per_gen as int,
                survival_threshold as int,
            )
            &&& a.rounded == (a.raised_count % survival_threshold != 0)
            &&& a.count == adjusted_count(candidates_per_gen as int, survival_threshold as int)
        },
{
    if pixel_target <= 0 {
        return Err(ConfigError::ZeroPixelTarget);
    }
    // Ensure candidate count is > survival threshold
    let mut count = candidates_per_gen;
    let raised = count < survival_threshold;
    if raised {
        count = survival_threshold;
    }
    let raised_count = count;
    // Ensure candidate count is a multiple of survival threshold
    let offset = count % survival_threshold;
    let rounded = offset != 0;
    if rounded {
        count = count + (survival_threshold - offset);
    }
    Ok(CandidateAdjustment { requested: candidates_per_gen, raised, raised_count, rounded, count })
}

/// The adjusted candidate count is the least multiple of the survival threshold
/// that is no smaller than the requested count nor than the threshold itself;
/// adjusting it again changes nothing.
pub proof fn lemma_adjusted_count(candidates: int, threshold: int)
    requires
        candidates >= 0,
        threshold > 0,
    ensures
        adjusted_count(candidates, threshold) % threshold == 0,
        adjusted_count(candidates, threshold) >= candidates,
        adjusted_count(candidates, threshold) >= threshold,
        adjusted_count(candidates, threshold) < raised_count(candidates, threshold) + threshold,
        adjusted_count(adjusted_count(candidates, threshold), threshold) == adjusted_count(
            candidates,
            threshold,
        ),
{
    let c = raised_count(candidates, threshold);
    let a = adjusted_count(candidates, threshold);
    assert(a % threshold == 0) by (nonlinear_arith)
        requires
            threshold > 0,
            a == if c % threshold == 0 {
                c
            } else {
                c + (threshold - c % threshold)
            },
    {
        if c % threshold != 0 {
            vstd::arithmetic::div_mod::lemma_mod_adds(c, threshold - c % threshold, threshold);
            vstd::arithmetic::div_mod::lemma_mod_self_0(threshold);
            vstd::arithmetic::div_mod::lemma_fundamental_div_mod(c, threshold);
            vstd::arithmetic::div_mod::lemma_mod_multiples_basic(c / threshold + 1, threshold);
            assert(c + (threshold - c % threshold) == (c / threshold + 1) * threshold);
        }
    }
    assert(0 <= c % threshold < threshold) by {
        vstd::arithmetic::div_mod::lemma_mod_bound(c, threshold);
    }
}


/// The pixel target when none is given.
pub const DEFAULT_PIXEL_TARGET: u32 = 20000;

/// The survival threshold when none is given.
pub const DEFAULT_SURVIVAL_THRESHOLD: usize = 5;

/// The number of evolution cycles when none is given.
pub const DEFAULT_EVOLUTION_CYCLES: usize = 10;

/// The number of candidates per generation when none is given.
pub const DEFAULT_CANDIDATES: usize = 500;

/// The number of images placed when none is given.
pub const DEFAULT_TOTAL_IMAGES: usize = 1000;

/// The given value, else the default.
pub open spec fn given_or<T>(given: Option<T>, default: T) -> T {
    match given {
        Some(v) => v,
        None => default,
    }
}

/// Where the atlas json is read from.
#[derive(Clone, Copy, PartialEq, Eq, Structural, Debug)]
pub enum AtlasJsonPath {
    /// The path is the (non-empty) argument at this position.
    Given(usize),
    /// The atlas texture's path with the extension `json`.
    FromAtlasTexture,
}

/// The settings a run uses: the given ones, the defaults for the others, and
/// the candidate count adjusted to the survival threshold. Paths and the
/// mutation strength are positions of arguments, as in [`ArgSettings`]; a
/// path not given keeps its default, and a seed not given is drawn at random.
#[derive(Clone, Copy, PartialEq, Eq, Debug)]
pub struct RunSettings {
    pub target_texture: Option<usize>,
    pub atlas_texture: Option<usize>,
    pub atlas_json: AtlasJsonPath,
    pub profile_log: Option<usize>,
    pub pixel_target: u32,
    pub seed: Option<u64>,
    pub survival_threshold: usize,
    pub evolution_cycles: usize,
    /// The adjusted number of candidates per generation.
    pub candidates: usize,
    pub total_images: usize,
    pub mutation_strength: Option<usize>,
    pub hue_shift: bool,
    pub video_gen: bool,
    /// How the requested candidate count was adjusted.
    pub adjustment: CandidateAdjustment,
}

/// Why settling on the given settings would fail where the program cannot go
/// on: the adjustment of the candidate count divides by the survival threshold
/// and may exceed the largest `usize`.
#[derive(Clone, Copy, PartialEq, Eq, Structural, Debug)]
pub enum Hazard {
    /// The pixel target is not zero but the survival threshold is.
    ZeroThreshold,
    /// The adjusted candidate count does not fit in a `usize`.
    Overflow,
}

pub open spec fn pixel_target_of(s: ArgSettings) -> u32 {
    given_or(s.pixel_target, DEFAULT_PIXEL_TARGET)
}

pub open spec fn threshold_of(s: ArgSettings) -> usize {
    given_or(s.survival_threshold, DEFAULT_SURVIVAL_THRESHOLD)
}

pub open spec fn candidates_of(s: ArgSettings) -> usize {
    given_or(s.candidates, DEFAULT_CANDIDATES)
}

/// What stops the candidate count from being adjusted, if anything.
pub open spec fn hazard_of(s: ArgSettings) -> Option<Hazard> {
    if pixel_target_of(s) == 0 {
        None
    } else if threshold_of(s) == 0 {
        Some(Hazard::ZeroThreshold)
    } else if adjusted_count(candidates_of(s) as int, threshold_of(s) as int) > usize::MAX {
        Some(Hazard::Overflow)
    } else {
        None
    }
}

/// Where the atlas json is read from: the given path, unless it is missing or
/// empty.
pub open spec fn atlas_json_of(args: Seq<Seq<char>>, s: ArgSettings) -> AtlasJsonPath {
    match s.atlas_json {
        Some(i) => if args[i as int].len() > 0 {
            AtlasJsonPath::Given(i)
        } else {
            AtlasJsonPath::FromAtlasTexture
        },
        None => AtlasJsonPath::FromAtlasTexture,
    }
}

/// The settings a run uses, or why there is none: a zero pixel target.
pub open spec fn settled(args: Seq<Seq<char>>, s: ArgSettings) -> Result<RunSettings, ConfigError> {
    let t = threshold_of(s) as int;
    let c = candidates_of(s) as int;
    if pixel_target_of(s) == 0 {
        Err(ConfigError::ZeroPixelTarget)
    } else {
        Ok(
            RunSettings {
                target_texture: s.target_texture,
                atlas_texture: s.atlas_texture,
                atlas_json: atlas_json_of(args, s),
                profile_log: s.profile_log,
                pixel_target: pixel_target_of(s),
                seed: s.seed,
                survival_threshold: threshold_of(s),
                evolution_cycles: given_or(s.evolution_cycles, DEFAULT_EVOLUTION_CYCLES),
                candidates: adjusted_count(c, t) as usize,
                total_images: given_or(s.total_images, DEFAULT_TOTAL_IMAGES),
                mutation_strength: s.mutation_strength,
                hue_shift: s.hue_shift,
                video_gen: s.video_gen,
                adjustment: CandidateAdjustment {
                    requested: candidates_of(s),
                    raised: c < t,
                    raised_count: raised_count(c, t) as usize,
                    rounded: raised_count(c, t) % t != 0,
                    count: adjusted_count(c, t) as usize,
                },
            },
        )
    }
}

/// What stops the given settings from being settled, if anything.
pub fn settle_hazard(s: &ArgSettings) -> (result: Option<Hazard>)
    ensures
        result == hazard_of(*s),
{
    let p = match s.pixel_target {
        Some(v) => v,
        None => DEFAULT_PIXEL_TARGET,
    };
    let t = match s.survival_threshold {
        Some(v) => v,
        None => DEFAULT_SURVIVAL_THRESHOLD,
    };
    let c = match s.candidates {
        Some(v) => v,
        None => DEFAULT_CANDIDATES,
    };
    if p == 0 {
        return None;
    }
    if t == 0 {
        return Some(Hazard::ZeroThreshold);
    }
    let raised = if c < t {
        t
    } else {
        c
    };
    let offset = raised % t;
    if offset != 0 && raised > usize::MAX - (t - offset) {
        return Some(Hazard::Overflow);
    }
    None
}

/// Fills in the defaults of the settings not given, checks the pixel target
/// and adjusts the candidate count to the survival threshold.
pub fn settle(args: &Vec<String>, s: ArgSettings) -> (result: Result<RunSettings, ConfigError>)
    requires
        hazard_of(s) is None,
        json_within(s, args@.len()),
    ensures
        result == settled(arg_texts(args@), s),
        result is Err <==> pixel_target_of(s) == 0,
        result matches Ok(r) ==> keeps_given(s, r),
{
    let pixel_target = match s.pixel_target {
        Some(v) => v,
        None => DEFAULT_PIXEL_TARGET,
    };
    let survival_threshold = match s.survival_threshold {
        Some(v) => v,
        None => DEFAULT_SURVIVAL_THRESHOLD,
    };
    let candidates = match s.candidates {
        Some(v) => v,
        None => DEFAULT_CANDIDATES,
    };
    let adjustment = match safety_checks(pixel_target, survival_threshold, candidates) {
        Ok(a) => a,
        Err(e) => {
            return Err(e);
        },
    };
    let atlas_json = match s.atlas_json {
        Some(i) => {
            proof {
                assert(arg_texts(args@)[i as int] == args@[i as int]@);
            }
            if args[i].as_str().unicode_len() > 0 {
                AtlasJsonPath::Given(i)
            } else {
                AtlasJsonPath::FromAtlasTexture
            }
        },
        None => AtlasJsonPath::FromAtlasTexture,
    };
    proof {
        lemma_settled_keeps_given(arg_texts(args@), s);
    }
    Ok(
        RunSettings {
            target_texture: s.target_texture,
            atlas_texture: s.atlas_texture,
            atlas_json,
            profile_log: s.profile_log,
            pixel_target,
            seed: s.seed,
            survival_threshold,
            evolution_cycles: match s.evolution_cycles {
                Some(v) => v,
                None => DEFAULT_EVOLUTION_CYCLES,
            },
            candidates: adjustment.count,
            total_images: match s.total_images {
                Some(v) => v,
                None => DEFAULT_TOTAL_IMAGES,
            },
            mutation_strength: s.mutation_strength,
            hue_shift: s.hue_shift,
            video_gen: s.video_gen,
            adjustment,
        },
    )
}

/// What the command line asks for, the settings of a run settled.
#[derive(Clone, Copy, PartialEq, Eq, Debug)]
pub enum ParseOutcome {
    /// `-h` or `--help` was given: print the help text and stop.
    ShowHelp,
    /// `-v` or `--version` was given: print the version and stop.
    ShowVersion,
    /// Run with these settings.
    Run(RunSettings),
}

/// What a command line asks for, or why it is refused: help and version first,
/// then the flags read one by one, then the checks on the settings.
pub open spec fn parse_outcome(args: Seq<Seq<char>>, float_ok: Seq<bool>) -> Result<
    ParseOutcome,
    ArgProblem,
> {
    match read_outcome(args, float_ok) {
        Ok(ArgOutcome::ShowHelp) => Ok(ParseOutcome::ShowHelp),
        Ok(ArgOutcome::ShowVersion) => Ok(ParseOutcome::ShowVersion),
        Ok(ArgOutcome::Read(s)) => match settled(args, s) {
            Ok(r) => Ok(ParseOutcome::Run(r)),
            Err(_) => Err(ArgProblem::ZeroPixelTarget),
        },
        Err(e) => Err(e),
    }
}

/// The command line can be settled without the failures that [`Hazard`] names.
pub open spec fn parse_is_safe(args: Seq<Seq<char>>, float_ok: Seq<bool>) -> bool {
    read_outcome(args, float_ok) matches Ok(ArgOutcome::Read(s)) ==> hazard_of(s) is None
}

/// `result` is `expected`, the errors compared by their problem.
pub open spec fn outcome_is(
    result: Result<ParseOutcome, ArgError>,
    expected: Result<ParseOutcome, ArgProblem>,
) -> bool {
    match result {
        Ok(o) => expected == Ok::<ParseOutcome, ArgProblem>(o),
        Err(e) => expected == Err::<ParseOutcome, ArgProblem>(e.problem()),
    }
}

/// Parses the program arguments `args`, the program's name first, into the
/// settings of a run. `float_ok[i]` tells whether `args[i]` parses as a
/// floating-point number, which only the caller can check.
pub fn parse(args: &Vec<String>, float_ok: &Vec<bool>) -> (result: Result<ParseOutcome, ArgError>)
    requires
        float_ok@.len() == args@.len(),
        parse_is_safe(arg_texts(args@), float_ok@),
    ensures
        outcome_is(result, parse_outcome(arg_texts(args@), float_ok@)),
{
    match read_args(args, float_ok) {
        Ok(ArgOutcome::ShowHelp) => Ok(ParseOutcome::ShowHelp),
        Ok(ArgOutcome::ShowVersion) => Ok(ParseOutcome::ShowVersion),
        Ok(ArgOutcome::Read(s)) => match settle(args, s) {
            Ok(r) => Ok(ParseOutcome::Run(r)),
            Err(_) => Err(ArgError::ZeroPixelTarget),
        },
        Err(e) => Err(e),
    }
}

/// Parses the program arguments as [`parse`] does where that is safe; where
/// the settings read would make the candidate count unadjustable, returns what
/// stops it instead.
pub fn checked_parse(args: &Vec<String>, float_ok: &Vec<bool>) -> (result: Result<
    Result<ParseOutcome, ArgError>,
    Hazard,
>)
    requires
        float_ok@.len() == args@.len(),
    ensures
        match result {
            Ok(r) => parse_is_safe(arg_texts(args@), float_ok@) && outcome_is(
                r,
                parse_outcome(arg_texts(args@), float_ok@),
            ),
            Err(h) => read_outcome(arg_texts(args@), float_ok@) matches Ok(ArgOutcome::Read(s))
                && hazard_of(s) == Some(h),
        },
{
    if let Ok(ArgOutcome::Read(s)) = read_args(args, float_ok) {
        if let Some(h) = settle_hazard(&s) {
            return Err(h);
        }
    }
    Ok(parse(args, float_ok))
}

/// Every run the command line is settled into has a positive pixel target and
/// survival threshold, and a candidate count that is a multiple of the
/// threshold, no smaller than it nor than the count asked for.
pub proof fn lemma_run_settings_are_sound(args: Seq<Seq<char>>, float_ok: Seq<bool>)
    requires
        parse_is_safe(args, float_ok),
    ensures
        parse_outcome(args, float_ok) matches Ok(ParseOutcome::Run(r)) ==> {
            &&& r.pixel_target > 0
            &&& r.survival_threshold > 0
            &&& r.candidates % r.survival_threshold == 0
            &&& r.candidates >= r.survival_threshold
            &&& read_outcome(args, float_ok) matches Ok(ArgOutcome::Read(s)) && r.candidates
                >= candidates_of(s)
        },
{
    if let Ok(ArgOutcome::Read(s)) = read_outcome(args, float_ok) {
        if pixel_target_of(s) != 0 {
            lemma_adjusted_count(candidates_of(s) as int, threshold_of(s) as int);
        }
    }
}


/// Each setting with a value is named by a short flag and a long flag:
/// `-t`/`--target`, `-a`/`--atlas`, `-aj`/`--atlas_json`, `-pl`/`--profile_log`,
/// `-pt`/`--pixel_target`, `-s`/`--seed`, `-st`/`--survival_threshold`,
/// `-ec`/`--evolution_cycles`, `-cpg`/`--candidates`, `-ti`/`--total_images`,
/// `-ms`/`--mutation_strength`; the switches are `-h`/`--hue_shift` and
/// `-vg`/`--video_gen`.
#[verifier::rlimit(60)]
pub proof fn lemma_flag_table()
    ensures
        setting_for("-t"@) == Some(Setting::TargetTexture),
        setting_for("--target"@) == Some(Setting::TargetTexture),
        setting_for("-a"@) == Some(Setting::AtlasTexture),
        setting_for("--atlas"@) == Some(Setting::AtlasTexture),
        setting_for("-aj"@) == Some(Setting::AtlasJson),
        setting_for("--atlas_json"@) == Some(Setting::AtlasJson),
        setting_for("-pl"@) == Some(Setting::ProfileLog),
        setting_for("--profile_log"@) == Some(Setting::ProfileLog),
        setting_for("-pt"@) == Some(Setting::PixelTarget),
        setting_for("--pixel_target"@) == Some(Setting::PixelTarget),
        setting_for("-s"@) == Some(Setting::Seed),
        setting_for("--seed"@) == Some(Setting::Seed),
        setting_for("-st"@) == Some(Setting::SurvivalThreshold),
        setting_for("--survival_threshold"@) == Some(Setting::SurvivalThreshold),
        setting_for("-ec"@) == Some(Setting::EvolutionCycles),
        setting_for("--evolution_cycles"@) == Some(Setting::EvolutionCycles),
        setting_for("-cpg"@) == Some(Setting::Candidates),
        setting_for("--candidates"@) == Some(Setting::Candidates),
        setting_for("-ti"@) == Some(Setting::TotalImages),
        setting_for("--total_images"@) == Some(Setting::TotalImages),
        setting_for("-ms"@) == Some(Setting::MutationStrength),
        setting_for("--mutation_strength"@) == Some(Setting::MutationStrength),
        setting_for("-h"@) == Some(Setting::HueShift),
        setting_for("--hue_shift"@) == Some(Setting::HueShift),
        setting_for("-vg"@) == Some(Setting::VideoGen),
        setting_for("--video_gen"@) == Some(Setting::VideoGen),
{
    reveal_strlit("-t");
    reveal_strlit("--target");
    reveal_strlit("-a");
    reveal_strlit("--atlas");
    reveal_strlit("-aj");
    reveal_strlit("--atlas_json");
    reveal_strlit("-pl");
    reveal_strlit("--profile_log");
    reveal_strlit("-pt");
    reveal_strlit("--pixel_target");
    reveal_strlit("-s");
    reveal_strlit("--seed");
    reveal_strlit("-st");
    reveal_strlit("--survival_threshold");
    reveal_strlit("-ec");
    reveal_strlit("--evolution_cycles");
    reveal_strlit("-cpg");
    reveal_strlit("--candidates");
    reveal_strlit("-ti");
    reveal_strlit("--total_images");
    reveal_strlit("-ms");
    reveal_strlit("--mutation_strength");
    reveal_strlit("-h");
    reveal_strlit("--hue_shift");
    reveal_strlit("-vg");
    reveal_strlit("--video_gen");
    assert("-t"@.len() == 2);
    assert("--target"@.len() == 8);
    assert("-a"@.len() == 2);
    assert("--atlas"@.len() == 7);
    assert("-aj"@.len() == 3);
    assert("--atlas_json"@.len() == 12);
    assert("-pl"@.len() == 3);
    assert("--profile_log"@.len() == 13);
    assert("-pt"@.len() == 3);
    assert("--pixel_target"@.len() == 14);
    assert("-s"@.len() == 2);
    assert("--seed"@.len() == 6);
    assert("-st"@.len() == 3);
    assert("--survival_threshold"@.len() == 20);
    assert("-ec"@.len() == 3);
    assert("--evolution_cycles"@.len() == 18);
    assert("-cpg"@.len() == 4);
    assert("--candidates"@.len() == 12);
    assert("-ti"@.len() == 3);
    assert("--total_images"@.len() == 14);
    assert("-ms"@.len() == 3);
    assert("--mutation_strength"@.len() == 19);
    assert("-h"@.len() == 2);
    assert("--hue_shift"@.len() == 11);
    assert("-vg"@.len() == 3);
    assert("--video_gen"@.len() == 11);
    assert("-a"@[1] != "-t"@[1]);
    assert("-pl"@[1] != "-aj"@[1]);
    assert("-pt"@[1] != "-aj"@[1]);
    assert("-pt"@[2] != "-pl"@[2]);
    assert("-s"@[1] != "-t"@[1]);
    assert("-s"@[1] != "-a"@[1]);
    assert("-st"@[1] != "-aj"@[1]);
    assert("-st"@[1] != "-pl"@[1]);
    assert("-st"@[1] != "-pt"@[1]);
    assert("-ec"@[1] != "-aj"@[1]);
    assert("-ec"@[1] != "-pl"@[1]);
    assert("-ec"@[1] != "-pt"@[1]);
    assert("-ec"@[1] != "-st"@[1]);
    assert("--candidates"@[2] != "--atlas_json"@[2]);
    assert("-ti"@[1] != "-aj"@[1]);
    assert("-ti"@[1] != "-pl"@[1]);
    assert("-ti"@[1] != "-pt"@[1]);
    assert("-ti"@[1] != "-st"@[1]);
    assert("-ti"@[1] != "-ec"@[1]);
    assert("--total_images"@[2] != "--pixel_target"@[2]);
    assert("-ms"@[1] != "-aj"@[1]);
    assert("-ms"@[1] != "-pl"@[1]);
    assert("-ms"@[1] != "-pt"@[1]);
    assert("-ms"@[1] != "-st"@[1]);
    assert("-ms"@[1] != "-ec"@[1]);
    assert("-ms"@[1] != "-ti"@[1]);
    assert("-h"@[1] != "-t"@[1]);
    assert("-h"@[1] != "-a"@[1]);
    assert("-h"@[1] != "-s"@[1]);
    assert("-vg"@[1] != "-aj"@[1]);
    assert("-vg"@[1] != "-pl"@[1]);
    assert("-vg"@[1] != "-pt"@[1]);
    assert("-vg"@[1] != "-st"@[1]);
    assert("-vg"@[1] != "-ec"@[1]);
    assert("-vg"@[1] != "-ti"@[1]);
    assert("-vg"@[1] != "-ms"@[1]);
    assert("--video_gen"@[2] != "--hue_shift"@[2]);
}

/// `r` runs with what `s` was given: the paths, seed and mutation strength as
/// given, the switches as given, and each number as given or else its default;
/// the candidate count is the one asked for (or the default), raised to the
/// survival threshold and rounded up to a multiple of it.
pub open spec fn keeps_given(s: ArgSettings, r: RunSettings) -> bool {
    &&& r.target_texture == s.target_texture
    &&& r.atlas_texture == s.atlas_texture
    &&& r.profile_log == s.profile_log
    &&& r.seed == s.seed
    &&& r.mutation_strength == s.mutation_strength
    &&& r.hue_shift == s.hue_shift
    &&& r.video_gen == s.video_gen
    &&& (s.atlas_json is None ==> r.atlas_json == AtlasJsonPath::FromAtlasTexture)
    &&& (r.atlas_json matches AtlasJsonPath::Given(i) ==> s.atlas_json == Some(i))
    &&& r.pixel_target == (match s.pixel_target {
        Some(v) => v,
        None => 20000u32,
    })
    &&& r.survival_threshold == (match s.survival_threshold {
        Some(v) => v,
        None => 5usize,
    })
    &&& r.evolution_cycles == (match s.evolution_cycles {
        Some(v) => v,
        None => 10usize,
    })
    &&& r.total_images == (match s.total_images {
        Some(v) => v,
        None => 1000usize,
    })
    &&& r.adjustment.requested == (match s.candidates {
        Some(v) => v,
        None => 500usize,
    })
    &&& r.candidates == r.adjustment.count
    &&& r.candidates % r.survival_threshold == 0
    &&& r.candidates >= r.survival_threshold
    &&& r.candidates >= r.adjustment.requested
    &&& r.candidates < r.survival_threshold + (if r.adjustment.requested < r.survival_threshold {
        r.survival_threshold as int
    } else {
        r.adjustment.requested as int
    })
    &&& r.adjustment.raised == (r.adjustment.requested < r.survival_threshold)
    &&& r.adjustment.rounded == (r.candidates != (if r.adjustment.requested
        < r.survival_threshold {
        r.survival_threshold
    } else {
        r.adjustment.requested
    }))
}

/// A settled run keeps what was given and the defaults of the rest; it fails
/// exactly when the pixel target is zero.
pub proof fn lemma_settled_keeps_given(args: Seq<Seq<char>>, s: ArgSettings)
    requires
        hazard_of(s) is None,
    ensures
        settled(args, s) is Err <==> pixel_target_of(s) == 0,
        settled(args, s) matches Ok(r) ==> keeps_given(s, r),
{
    if pixel_target_of(s) != 0 {
        let t = threshold_of(s) as int;
        let c = candidates_of(s) as int;
        lemma_adjusted_count(c, t);
        let a = adjusted_count(c, t);
        let rc = raised_count(c, t);
        assert(0 <= rc % t < t) by {
            vstd::arithmetic::div_mod::lemma_mod_bound(rc, t);
        }
        assert((rc % t != 0) == (a != rc));
    }
}

} // verus!
