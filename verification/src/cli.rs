//! Command-line routing: which command a process invocation asks for, with its options read
//! and checked before anything is launched or validated.
//!
//! Scenario commands take a package key, never a filesystem path. Gameplay defaults to the
//! deterministic seed 1. Any debug option starts directly in the world; a start map and a start
//! position must be supplied together.

use vstd::prelude::*;

use crate::debug_launch::{DebugLaunchConfig, DebugPartyPreset, FlagOverrides};
use crate::gameplay_rng::DEFAULT_GAMEPLAY_SEED;
use crate::scenario_root::{package_key_error, ScenarioRoot, DEFAULT_SCENARIO_PACKAGE_KEY};
use crate::scenario_transport::Position;
use crate::scenario_validation_baseline::{trim, trim_text};
use crate::debug_launch::entry_views;
use crate::text::{
    concat2, concat3, concat4, decimal, decimal_string, index_of_char, signed_decimal,
    signed_decimal_string, lemma_index_of_char_at, parse_i32, parse_u64,
    parsed_signed, parsed_unsigned, str_equals,
};

verus! {

/// The exit status of a successful invocation.
pub const EXIT_SUCCESS: u8 = 0;

/// The exit status of a scenario that failed validation or could not be prepared.
pub const EXIT_VALIDATION_FAILED: u8 = 1;

/// The exit status of a misused command line.
pub const EXIT_USAGE: u8 = 2;

/// The usage text printed for `--help` and after a misused command line.
pub const USAGE: &'static str = "Usage:\n  rpg-s1\n  rpg-s1 play [PACKAGE_KEY] [--seed U64] [--timings] [DEBUG_OPTIONS]\n  rpg-s1 record OUTPUT [PACKAGE_KEY] [--seed U64] [--timings] [DEBUG_OPTIONS]\n  rpg-s1 replay INPUT\n  rpg-s1 validate-scenario [PACKAGE_KEY]\n  rpg-s1 map-report [PACKAGE_KEY]\n  rpg-s1 map-sweep [PACKAGE_KEY]\n  rpg-s1 dialogue-report [PACKAGE_KEY]\n  rpg-s1 dialogue-sweep [PACKAGE_KEY]\n  rpg-s1 encounter-sweep [PACKAGE_KEY]\n  rpg-s1 import-python-save INPUT --slot 0..100 [--package PACKAGE_KEY] [--allow-unchecked] [--replace]\n\nDEBUG_OPTIONS:\n  --start-map MAP_ID --start-position X,Y\n  --party-preset solo|full\n  --set-flag FLAG_ID\n  --unset-flag FLAG_ID\n\nScenario commands default to package `rusted_kingdoms`. PACKAGE_KEY is a portable package name, not a path. Gameplay defaults to deterministic seed 1. --timings logs world and battle hotspot measurements every 120 frames. Any debug option starts directly in the world; map and position must be supplied together. Record refuses to overwrite OUTPUT; replay takes its package, seed, and debug options from INPUT. Python import is explicit, one-way, and never scans for legacy saves.\n\nENVIRONMENT:\n  RPG_S1_PARTY_PRESET=solo|full  Debug party for `rpg-s1` and `play`/`record`; starts directly in the world. --party-preset wins. Ignored by replay.\n  RPG_S1_MUTE_AUDIO              Any value silences audio.\n  RPG_S1_DEBUG_COLLISION         Any value draws portal and collision outlines.";

/// The environment variable that picks a debug party for a plain launch.
pub const PARTY_PRESET_ENV_VAR: &'static str = "RPG_S1_PARTY_PRESET";

/// A misused command line, with the reason.
#[derive(Debug, PartialEq, Eq)]
pub struct UsageError(pub String);

/// Validated options of a play session.
#[derive(Debug, PartialEq, Eq)]
pub struct PlayArguments {
    /// The scenario package to play.
    pub root: ScenarioRoot,
    /// The gameplay random seed.
    pub seed: u64,
    /// Whether per-system frame timings are logged.
    pub timings: bool,
    /// The debug launch, when any debug option is given.
    pub debug: Option<DebugLaunchConfig>,
}

/// The command-line arguments as text.
pub open spec fn arguments_view(a: Seq<String>) -> Seq<Seq<char>> {
    Seq::new(a.len(), |i: int| a[i]@)
}

/// The text of an optional string.
pub open spec fn optional_text(o: Option<String>) -> Option<Seq<char>> {
    match o {
        Some(s) => Some(s@),
        None => None,
    }
}

/// The debug party named `s`.
pub open spec fn preset_named(s: Seq<char>) -> Option<DebugPartyPreset> {
    if s == "solo"@ {
        Some(DebugPartyPreset::Solo)
    } else if s == "full"@ {
        Some(DebugPartyPreset::Full)
    } else {
        None
    }
}

/// Reads a debug party name: `solo` or `full`.
pub fn parse_party_preset(value: &str) -> (r: Option<DebugPartyPreset>)
    ensures
        r == preset_named(value@),
{
    if str_equals(value, "solo") {
        Some(DebugPartyPreset::Solo)
    } else if str_equals(value, "full") {
        Some(DebugPartyPreset::Full)
    } else {
        None
    }
}

/// A character a debug flag id may hold: an ASCII letter or digit, `_`, `-` or `.`.
pub open spec fn is_flag_char(c: char) -> bool {
    ('a' <= c && c <= 'z') || ('A' <= c && c <= 'Z') || ('0' <= c && c <= '9') || c == '_' || c
        == '-' || c == '.'
}

/// A debug flag id: nonempty, of flag characters only.
pub open spec fn is_flag_id(s: Seq<char>) -> bool {
    s.len() > 0 && forall|i: int| 0 <= i < s.len() ==> is_flag_char(#[trigger] s[i])
}

/// Whether `value` can name a story flag to set or unset.
pub fn valid_debug_flag_id(value: &str) -> (r: bool)
    ensures
        r == is_flag_id(value@),
{
    let n = value.unicode_len();
    if n == 0 {
        return false;
    }
    let mut i: usize = 0;
    while i < n
        invariant
            n == value@.len(),
            i <= n,
            forall|k: int| 0 <= k < i ==> is_flag_char(#[trigger] value@[k]),
        decreases n - i,
    {
        let c = value.get_char(i);
        if !(('a' <= c && c <= 'z') || ('A' <= c && c <= 'Z') || ('0' <= c && c <= '9') || c
            == '_' || c == '-' || c == '.') {
            assert(!is_flag_char(value@[i as int]));
            return false;
        }
        i = i + 1;
    }
    true
}

/// The tile written `X,Y`: two `i32` values split at the first comma.
pub open spec fn position_named(s: Seq<char>) -> Option<Position> {
    let j = index_of_char(s, ',');
    if j >= s.len() {
        None
    } else {
        match (
            parsed_signed(s.take(j), 0x8000_0000, 0x7fff_ffff),
            parsed_signed(s.skip(j + 1), 0x8000_0000, 0x7fff_ffff),
        ) {
            (Some(x), Some(y)) => Some(Position { x: x as i32, y: y as i32 }),
            _ => None,
        }
    }
}

/// Reads a start position written `X,Y`.
pub fn parse_position(value: &str) -> (r: Option<Position>)
    ensures
        r == position_named(value@),
{
    let n = value.unicode_len();
    let mut j: usize = 0;
    while j < n && value.get_char(j) != ','
        invariant
            n == value@.len(),
            j <= n,
            forall|k: int| 0 <= k < j ==> value@[k] != ',',
        decreases n - j,
    {
        j = j + 1;
    }
    proof {
        lemma_index_of_char_at(value@, ',', j as int);
    }
    if j == n {
        return None;
    }
    let x_text = value.substring_char(0, j);
    let y_text = value.substring_char(j + 1, n);
    assert(x_text@ =~= value@.take(j as int));
    assert(y_text@ =~= value@.skip(j + 1));
    match (parse_i32(x_text), parse_i32(y_text)) {
        (Some(x), Some(y)) => Some(Position { x, y }),
        _ => None,
    }
}

/// The play options read so far.
pub struct PlayScan {
    pub package: Option<Seq<char>>,
    pub seed: Option<u64>,
    pub timings: bool,
    pub start_map: Option<Seq<char>>,
    pub start_position: Option<Position>,
    pub party_preset: Option<DebugPartyPreset>,
    pub flags: Map<Seq<char>, bool>,
}

/// No play option read yet.
pub open spec fn play_start() -> PlayScan {
    PlayScan {
        package: None,
        seed: None,
        timings: false,
        start_map: None,
        start_position: None,
        party_preset: None,
        flags: Map::empty(),
    }
}

/// Reads the play options `args` from position `i` on, after those already read into `st`:
/// the options so far, or the first misuse.
pub open spec fn play_scan(args: Seq<Seq<char>>, i: int, st: PlayScan) -> Result<PlayScan, Seq<char>>
    decreases args.len() - i,
{
    if i < 0 || i >= args.len() {
        Ok(st)
    } else {
        let a = args[i];
        let has_value = i + 1 < args.len();
        let v = args[i + 1];
        if a == "--seed"@ {
            if !has_value {
                Err("--seed requires a U64 value"@)
            } else {
                match parsed_unsigned(v, u64::MAX as nat) {
                    None => Err("--seed requires a U64 value"@),
                    Some(n) => if st.seed is Some {
                        Err("--seed may appear only once"@)
                    } else {
                        play_scan(args, i + 2, PlayScan { seed: Some(n as u64), ..st })
                    },
                }
            }
        } else if a == "--timings"@ && !st.timings {
            play_scan(args, i + 1, PlayScan { timings: true, ..st })
        } else if a == "--start-map"@ {
            if !has_value {
                Err("--start-map requires MAP_ID"@)
            } else if v.len() == 0 || st.start_map is Some {
                Err("--start-map must appear once with a nonempty MAP_ID"@)
            } else {
                play_scan(args, i + 2, PlayScan { start_map: Some(v), ..st })
            }
        } else if a == "--start-position"@ {
            if !has_value {
                Err("--start-position requires X,Y"@)
            } else {
                match position_named(v) {
                    None => Err("--start-position requires X,Y"@),
                    Some(p) => if st.start_position is Some {
                        Err("--start-position may appear only once"@)
                    } else {
                        play_scan(args, i + 2, PlayScan { start_position: Some(p), ..st })
                    },
                }
            }
        } else if a == "--party-preset"@ {
            if !has_value {
                Err("--party-preset requires solo|full"@)
            } else {
                match preset_named(v) {
                    None => Err("--party-preset requires solo|full"@),
                    Some(p) => if st.party_preset is Some {
                        Err("--party-preset may appear only once"@)
                    } else {
                        play_scan(args, i + 2, PlayScan { party_preset: Some(p), ..st })
                    },
                }
            }
        } else if a == "--set-flag"@ || a == "--unset-flag"@ {
            if !has_value {
                Err(a + " requires FLAG_ID"@)
            } else if !is_flag_id(v) || st.flags.dom().contains(v) {
                Err(a + " requires a unique nonempty FLAG_ID"@)
            } else {
                play_scan(
                    args,
                    i + 2,
                    PlayScan { flags: st.flags.insert(v, a == "--set-flag"@), ..st },
                )
            }
        } else if a.len() > 0 && a[0] == '-' {
            Err("unknown play option `"@ + a + "`"@)
        } else if st.package is Some {
            Err("play accepts at most one package key"@)
        } else {
            play_scan(args, i + 1, PlayScan { package: Some(a), ..st })
        }
    }
}

/// Why a package key is refused, as a usage message.
pub open spec fn invalid_key_message(key: Seq<char>, e: crate::scenario_root::ScenarioPackageKeyError) -> Seq<char> {
    "invalid package key `"@ + key + "`: "@ + e.message()
}

/// The play options that `args` give, with the package key settled (the default package when
/// none is named), or the first misuse.
pub open spec fn play_outcome(args: Seq<Seq<char>>) -> Result<PlayScan, Seq<char>> {
    match play_scan(args, 0, play_start()) {
        Err(m) => Err(m),
        Ok(st) => {
            let key = match st.package {
                Some(p) => p,
                None => DEFAULT_SCENARIO_PACKAGE_KEY@,
            };
            match package_key_error(key) {
                Some(e) => Err(invalid_key_message(key, e)),
                None => if (st.start_map is Some) != (st.start_position is Some) {
                    Err("--start-map and --start-position must be supplied together"@)
                } else {
                    Ok(PlayScan { package: Some(key), ..st })
                },
            }
        },
    }
}

/// Whether the scan `st` asks for a debug launch.
pub open spec fn scan_debug_active(st: PlayScan) -> bool {
    st.start_map is Some || st.start_position is Some || st.party_preset is Some || st.flags
        != Map::<Seq<char>, bool>::empty()
}

impl PlayArguments {
    /// These options are the ones the settled scan `st` describes.
    pub open spec fn describes(&self, st: PlayScan) -> bool {
        &&& st.package matches Some(key) && self.root.key_view() == key
        &&& self.seed == match st.seed {
            Some(s) => s,
            None => DEFAULT_GAMEPLAY_SEED,
        }
        &&& self.timings == st.timings
        &&& if scan_debug_active(st) {
            self.debug matches Some(d) && optional_text(d.start_map) == st.start_map
                && d.start_position == st.start_position && d.party_preset == st.party_preset
                && d.flag_overrides@ == st.flags
        } else {
            self.debug is None
        }
    }
}

/// The result of reading play options, against what `play_outcome` says of `args`.
pub open spec fn play_result_matches(args: Seq<Seq<char>>, r: Result<PlayArguments, UsageError>) -> bool {
    match play_outcome(args) {
        Ok(st) => r matches Ok(p) && p.describes(st),
        Err(m) => r matches Err(e) && e.0@ == m,
    }
}

/// The default session: the default package, seed 1, no timings, no debug launch.
pub fn default_play_arguments() -> (r: PlayArguments)
    ensures
        r.root.key_view() == DEFAULT_SCENARIO_PACKAGE_KEY@,
        r.seed == DEFAULT_GAMEPLAY_SEED,
        !r.timings,
        r.debug is None,
{
    PlayArguments {
        root: ScenarioRoot::default(),
        seed: DEFAULT_GAMEPLAY_SEED,
        timings: false,
        debug: None,
    }
}

/// The scan state the parser's variables hold.
pub open spec fn play_state(
    package: Option<String>,
    seed: Option<u64>,
    timings: bool,
    start_map: Option<String>,
    start_position: Option<Position>,
    party_preset: Option<DebugPartyPreset>,
    flags: Map<Seq<char>, bool>,
) -> PlayScan {
    PlayScan {
        package: optional_text(package),
        seed,
        timings,
        start_map: optional_text(start_map),
        start_position,
        party_preset,
        flags,
    }
}

fn usage(message: &str) -> (r: UsageError)
    ensures
        r.0@ == message@,
{
    UsageError(message.to_owned())
}

/// Reads the options of `play` (and of `record` after its OUTPUT): at most one package key,
/// `--seed U64`, `--timings`, and the debug options.
pub fn parse_play_arguments(arguments: &[String]) -> (r: Result<PlayArguments, UsageError>)
    ensures
        play_result_matches(arguments_view(arguments@), r),
{
    let ghost args = arguments_view(arguments@);
    let mut package: Option<String> = None;
    let mut seed: Option<u64> = None;
    let mut timings = false;
    let mut start_map: Option<String> = None;
    let mut start_position: Option<Position> = None;
    let mut party_preset: Option<DebugPartyPreset> = None;
    let mut flags = FlagOverrides::new();
    let n = arguments.len();
    let mut index: usize = 0;
    while index < n
        invariant
            n == arguments@.len(),
            args == arguments_view(arguments@),
            index <= n,
            play_scan(args, 0, play_start()) == play_scan(
                args,
                index as int,
                play_state(package, seed, timings, start_map, start_position, party_preset, flags@),
            ),
        decreases n - index,
    {
        let a = arguments[index].as_str();
        assert(args[index as int] == a@);
        let has_value = index + 1 < n;
        if has_value {
            assert(args[index + 1] == arguments@[index + 1]@);
        }
        if str_equals(a, "--seed") {
            if !has_value {
                return Err(usage("--seed requires a U64 value"));
            }
            match parse_u64(arguments[index + 1].as_str()) {
                None => {
                    return Err(usage("--seed requires a U64 value"));
                },
                Some(v) => {
                    if seed.is_some() {
                        return Err(usage("--seed may appear only once"));
                    }
                    seed = Some(v);
                },
            }
            index = index + 2;
        } else if str_equals(a, "--timings") && !timings {
            timings = true;
            index = index + 1;
        } else if str_equals(a, "--start-map") {
            if !has_value {
                return Err(usage("--start-map requires MAP_ID"));
            }
            let value = arguments[index + 1].as_str();
            if value.unicode_len() == 0 || start_map.is_some() {
                return Err(usage("--start-map must appear once with a nonempty MAP_ID"));
            }
            start_map = Some(value.to_owned());
            index = index + 2;
        } else if str_equals(a, "--start-position") {
            if !has_value {
                return Err(usage("--start-position requires X,Y"));
            }
            match parse_position(arguments[index + 1].as_str()) {
                None => {
                    return Err(usage("--start-position requires X,Y"));
                },
                Some(p) => {
                    if start_position.is_some() {
                        return Err(usage("--start-position may appear only once"));
                    }
                    start_position = Some(p);
                },
            }
            index = index + 2;
        } else if str_equals(a, "--party-preset") {
            if !has_value {
                return Err(usage("--party-preset requires solo|full"));
            }
            match parse_party_preset(arguments[index + 1].as_str()) {
                None => {
                    return Err(usage("--party-preset requires solo|full"));
                },
                Some(p) => {
                    if party_preset.is_some() {
                        return Err(usage("--party-preset may appear only once"));
                    }
                    party_preset = Some(p);
                },
            }
            index = index + 2;
        } else if str_equals(a, "--set-flag") || str_equals(a, "--unset-flag") {
            if !has_value {
                return Err(UsageError(concat2(a, " requires FLAG_ID")));
            }
            let value = arguments[index + 1].as_str();
            if !valid_debug_flag_id(value) || flags.contains(value) {
                return Err(UsageError(concat2(a, " requires a unique nonempty FLAG_ID")));
            }
            flags.insert(value.to_owned(), str_equals(a, "--set-flag"));
            index = index + 2;
        } else if a.unicode_len() > 0 && a.get_char(0) == '-' {
            return Err(UsageError(concat3("unknown play option `", a, "`")));
        } else {
            if package.is_some() {
                return Err(usage("play accepts at most one package key"));
            }
            package = Some(a.to_owned());
            index = index + 1;
        }
    }
    let key: String = match package {
        Some(p) => p,
        None => DEFAULT_SCENARIO_PACKAGE_KEY.to_owned(),
    };
    let root = match ScenarioRoot::try_for_package_key(key.as_str()) {
        Ok(root) => root,
        Err(e) => {
            let reason = e.to_string();
            return Err(UsageError(concat4("invalid package key `", key.as_str(), "`: ", reason.as_str())));
        },
    };
    if start_map.is_some() != start_position.is_some() {
        return Err(usage("--start-map and --start-position must be supplied together"));
    }
    let debug = DebugLaunchConfig { start_map, start_position, party_preset, flag_overrides: flags };
    let active = debug.is_active();
    let seed = match seed {
        Some(s) => s,
        None => DEFAULT_GAMEPLAY_SEED,
    };
    Ok(PlayArguments { root, seed, timings, debug: if active { Some(debug) } else { None } })
}


/// Validated options of a one-way import of a legacy Python save into a native slot.
#[derive(Debug, PartialEq, Eq)]
pub struct ImportPythonArguments {
    /// The legacy save to read.
    pub input: String,
    /// The native slot to write, in `0..=100`.
    pub slot: usize,
    /// The scenario package whose catalog checks the save.
    pub root: ScenarioRoot,
    /// Whether a save that fails its checks is imported anyway.
    pub allow_unchecked: bool,
    /// Whether an occupied slot is replaced (its save kept as a backup).
    pub replace: bool,
}

/// The import options read so far.
pub struct ImportScan {
    pub input: Seq<char>,
    pub slot: Option<usize>,
    pub package: Seq<char>,
    pub allow_unchecked: bool,
    pub replace: bool,
}

/// Reads the import options `args` from position `i` on, after those already read into `st`.
pub open spec fn import_scan(args: Seq<Seq<char>>, i: int, st: ImportScan) -> Result<ImportScan, Seq<char>>
    decreases args.len() - i,
{
    if i < 0 || i >= args.len() {
        Ok(st)
    } else {
        let a = args[i];
        let has_value = i + 1 < args.len();
        let v = args[i + 1];
        if a == "--slot"@ {
            if !has_value {
                Err("--slot requires a value"@)
            } else {
                match parsed_unsigned(v, usize::MAX as nat) {
                    None => Err("--slot must be an integer in 0..=100"@),
                    Some(n) => if n > 100 || st.slot is Some {
                        Err("--slot must appear once with a value in 0..=100"@)
                    } else {
                        import_scan(args, i + 2, ImportScan { slot: Some(n as usize), ..st })
                    },
                }
            }
        } else if a == "--package"@ {
            if !has_value {
                Err("--package requires a value"@)
            } else {
                import_scan(args, i + 2, ImportScan { package: v, ..st })
            }
        } else if a == "--allow-unchecked"@ && !st.allow_unchecked {
            import_scan(args, i + 1, ImportScan { allow_unchecked: true, ..st })
        } else if a == "--replace"@ && !st.replace {
            import_scan(args, i + 1, ImportScan { replace: true, ..st })
        } else {
            Err("unknown or repeated import-python-save option `"@ + a + "`"@)
        }
    }
}

/// Whether `s` begins with `-`.
pub open spec fn dashed(s: Seq<char>) -> bool {
    s.len() > 0 && s[0] == '-'
}

/// The import options that `args` give (INPUT first), or the first misuse.
pub open spec fn import_outcome(args: Seq<Seq<char>>) -> Result<ImportScan, Seq<char>> {
    if args.len() == 0 {
        Err("import-python-save requires INPUT"@)
    } else if dashed(args[0]) {
        Err("import-python-save INPUT must come first"@)
    } else {
        let start = ImportScan {
            input: args[0],
            slot: None,
            package: DEFAULT_SCENARIO_PACKAGE_KEY@,
            allow_unchecked: false,
            replace: false,
        };
        match import_scan(args, 1, start) {
            Err(m) => Err(m),
            Ok(st) => if st.slot is None {
                Err("import-python-save requires --slot"@)
            } else {
                match package_key_error(st.package) {
                    Some(e) => Err(invalid_key_message(st.package, e)),
                    None => Ok(st),
                }
            },
        }
    }
}

proof fn lemma_import_scan_keeps(args: Seq<Seq<char>>, i: int, st: ImportScan)
    requires
        st.slot matches Some(n) ==> n <= 100,
    ensures
        import_scan(args, i, st) matches Ok(done) ==> done.input == st.input && (done.slot matches Some(
            n,
        ) ==> n <= 100) && (st.slot is Some ==> done.slot == st.slot) && (st.allow_unchecked
            ==> done.allow_unchecked) && (st.replace ==> done.replace),
    decreases args.len() - i,
{
    if 0 <= i < args.len() {
        let a = args[i];
        let v = args[i + 1];
        if a == "--slot"@ {
            if i + 1 < args.len() {
                match parsed_unsigned(v, usize::MAX as nat) {
                    Some(n) => if !(n > 100 || st.slot is Some) {
                        lemma_import_scan_keeps(args, i + 2, ImportScan { slot: Some(n as usize), ..st });
                    },
                    None => {},
                }
            }
        } else if a == "--package"@ {
            if i + 1 < args.len() {
                lemma_import_scan_keeps(args, i + 2, ImportScan { package: v, ..st });
            }
        } else if a == "--allow-unchecked"@ && !st.allow_unchecked {
            lemma_import_scan_keeps(args, i + 1, ImportScan { allow_unchecked: true, ..st });
        } else if a == "--replace"@ && !st.replace {
            lemma_import_scan_keeps(args, i + 1, ImportScan { replace: true, ..st });
        }
    }
}

/// The positions from `i` on that the import options are read at: `--slot` and `--package`
/// take the argument after them as their value.
pub open spec fn option_positions(args: Seq<Seq<char>>, i: int) -> Seq<int>
    decreases args.len() - i,
{
    if i < 0 || i >= args.len() {
        Seq::empty()
    } else if args[i] == "--slot"@ || args[i] == "--package"@ {
        if i + 2 <= args.len() {
            seq![i] + option_positions(args, i + 2)
        } else {
            seq![i]
        }
    } else {
        seq![i] + option_positions(args, i + 1)
    }
}

/// How many of the option positions `ps` hold `word`.
pub open spec fn occurrences(args: Seq<Seq<char>>, ps: Seq<int>, word: Seq<char>) -> nat
    decreases ps.len(),
{
    if ps.len() == 0 {
        0
    } else {
        (if args[ps[0]] == word {
            1nat
        } else {
            0nat
        }) + occurrences(args, ps.drop_first(), word)
    }
}

/// The value given with the last of the option positions `ps` that holds `word`, or `fallback`
/// when none does.
pub open spec fn last_value(args: Seq<Seq<char>>, ps: Seq<int>, word: Seq<char>, fallback: Seq<char>) -> Seq<char>
    decreases ps.len(),
{
    if ps.len() == 0 {
        fallback
    } else {
        last_value(
            args,
            ps.drop_first(),
            word,
            if args[ps[0]] == word {
                args[ps[0] + 1]
            } else {
                fallback
            },
        )
    }
}

/// Whether `a` is one of the import options.
pub open spec fn import_option(a: Seq<char>) -> bool {
    a == "--slot"@ || a == "--package"@ || a == "--allow-unchecked"@ || a == "--replace"@
}

proof fn lemma_import_scan_options(args: Seq<Seq<char>>, i: int, st: ImportScan)
    requires
        0 <= i,
    ensures
        import_scan(args, i, st) matches Ok(done) ==> {
            let ps = option_positions(args, i);
            &&& forall|k: int| 0 <= k < ps.len() ==> import_option(#[trigger] args[ps[k]])
            &&& occurrences(args, ps, "--slot"@) + (if st.slot is Some {
                1nat
            } else {
                0nat
            }) == (if done.slot is Some {
                1nat
            } else {
                0nat
            })
            &&& occurrences(args, ps, "--allow-unchecked"@) + (if st.allow_unchecked {
                1nat
            } else {
                0nat
            }) == (if done.allow_unchecked {
                1nat
            } else {
                0nat
            })
            &&& occurrences(args, ps, "--replace"@) + (if st.replace {
                1nat
            } else {
                0nat
            }) == (if done.replace {
                1nat
            } else {
                0nat
            })
            &&& done.package == last_value(args, ps, "--package"@, st.package)
        },
    decreases args.len() - i,
{
    reveal_strlit("--slot");
    reveal_strlit("--package");
    reveal_strlit("--allow-unchecked");
    reveal_strlit("--replace");
    assert("--slot"@.len() != "--allow-unchecked"@.len() && "--slot"@.len() != "--replace"@.len());
    assert("--package"@.len() != "--allow-unchecked"@.len() && "--package"@[2] != "--replace"@[2]);
    assert("--package"@ != "--replace"@);
    assert("--allow-unchecked"@.len() != "--replace"@.len() && "--slot"@.len() != "--package"@.len());
    if i < args.len() {
        let a = args[i];
        let v = args[i + 1];
        let ps = option_positions(args, i);
        if a == "--slot"@ {
            if i + 1 < args.len() {
                match parsed_unsigned(v, usize::MAX as nat) {
                    Some(n) => if !(n > 100 || st.slot is Some) {
                        let next = ImportScan { slot: Some(n as usize), ..st };
                        lemma_import_scan_options(args, i + 2, next);
                        assert(ps.drop_first() == option_positions(args, i + 2));
                    },
                    None => {},
                }
            }
        } else if a == "--package"@ {
            if i + 1 < args.len() {
                let next = ImportScan { package: v, ..st };
                lemma_import_scan_options(args, i + 2, next);
                assert(ps.drop_first() == option_positions(args, i + 2));
            }
        } else if a == "--allow-unchecked"@ && !st.allow_unchecked {
            lemma_import_scan_options(args, i + 1, ImportScan { allow_unchecked: true, ..st });
            assert(ps.drop_first() == option_positions(args, i + 1));
        } else if a == "--replace"@ && !st.replace {
            lemma_import_scan_options(args, i + 1, ImportScan { replace: true, ..st });
            assert(ps.drop_first() == option_positions(args, i + 1));
        }
        if import_scan(args, i, st) is Ok {
            let rest = ps.drop_first();
            assert forall|k: int| 0 <= k < ps.len() implies import_option(#[trigger] args[ps[k]]) by {
                if k > 0 {
                    assert(ps[k] == rest[k - 1]);
                }
            }
        }
    }
}

/// Accepted import options always name the first argument as INPUT, which does not begin with
/// `-`; carry a slot in `0..=100`; and name a valid package. After INPUT come options only:
/// `--slot` exactly once, `--allow-unchecked` and `--replace` at most once each, and the last
/// `--package` given names the package (the default one when there is none).
pub proof fn lemma_import_arguments_are_bounded(args: Seq<Seq<char>>)
    ensures
        import_outcome(args) matches Ok(st) ==> {
            &&& args.len() > 0
            &&& st.input == args[0]
            &&& !dashed(args[0])
            &&& st.slot matches Some(n) && n <= 100
            &&& package_key_error(st.package) is None
            &&& forall|k: int|
                0 <= k < option_positions(args, 1).len() ==> import_option(
                    #[trigger] args[option_positions(args, 1)[k]],
                )
            &&& occurrences(args, option_positions(args, 1), "--slot"@) == 1
            &&& st.allow_unchecked == (occurrences(args, option_positions(args, 1), "--allow-unchecked"@)
                == 1)
            &&& occurrences(args, option_positions(args, 1), "--allow-unchecked"@) <= 1
            &&& st.replace == (occurrences(args, option_positions(args, 1), "--replace"@) == 1)
            &&& occurrences(args, option_positions(args, 1), "--replace"@) <= 1
            &&& st.package == last_value(
                args,
                option_positions(args, 1),
                "--package"@,
                DEFAULT_SCENARIO_PACKAGE_KEY@,
            )
        },
{
    if args.len() > 0 && !dashed(args[0]) {
        let start = ImportScan {
            input: args[0],
            slot: None,
            package: DEFAULT_SCENARIO_PACKAGE_KEY@,
            allow_unchecked: false,
            replace: false,
        };
        lemma_import_scan_keeps(args, 1, start);
        lemma_import_scan_options(args, 1, start);
    }
}

impl ImportPythonArguments {
    /// These options are the ones the settled scan `st` describes.
    pub open spec fn describes(&self, st: ImportScan) -> bool {
        &&& self.input@ == st.input
        &&& st.slot == Some(self.slot)
        &&& self.root.key_view() == st.package
        &&& self.allow_unchecked == st.allow_unchecked
        &&& self.replace == st.replace
    }
}

/// Reads the options of `import-python-save`: INPUT first, then `--slot 0..=100` (required),
/// `--package KEY`, `--allow-unchecked` and `--replace`.
pub fn parse_import_python_arguments(arguments: &[String]) -> (r: Result<ImportPythonArguments, UsageError>)
    ensures
        match import_outcome(arguments_view(arguments@)) {
            Ok(st) => r matches Ok(a) && a.describes(st),
            Err(m) => r matches Err(e) && e.0@ == m,
        },
{
    let ghost args = arguments_view(arguments@);
    let n = arguments.len();
    if n == 0 {
        return Err(usage("import-python-save requires INPUT"));
    }
    let input = arguments[0].as_str();
    assert(args[0] == input@);
    if starts_with_dash(input) {
        return Err(usage("import-python-save INPUT must come first"));
    }
    let mut slot: Option<usize> = None;
    let mut package: String = DEFAULT_SCENARIO_PACKAGE_KEY.to_owned();
    let mut allow_unchecked = false;
    let mut replace = false;
    let ghost start = ImportScan {
        input: args[0],
        slot: None,
        package: DEFAULT_SCENARIO_PACKAGE_KEY@,
        allow_unchecked: false,
        replace: false,
    };
    let mut index: usize = 1;
    while index < n
        invariant
            n == arguments@.len(),
            args == arguments_view(arguments@),
            1 <= index <= n,
            !dashed(args[0]),
            start.input == args[0],
            start.package == DEFAULT_SCENARIO_PACKAGE_KEY@,
            start.slot is None,
            !start.allow_unchecked,
            !start.replace,
            import_scan(args, 1, start) == import_scan(
                args,
                index as int,
                ImportScan { input: args[0], slot, package: package@, allow_unchecked, replace },
            ),
        decreases n - index,
    {
        let a = arguments[index].as_str();
        assert(args[index as int] == a@);
        let has_value = index + 1 < n;
        if has_value {
            assert(args[index + 1] == arguments@[index + 1]@);
        }
        if str_equals(a, "--slot") {
            if !has_value {
                return Err(usage("--slot requires a value"));
            }
            match crate::text::parse_usize(arguments[index + 1].as_str()) {
                None => {
                    return Err(usage("--slot must be an integer in 0..=100"));
                },
                Some(v) => {
                    if v > 100 || slot.is_some() {
                        return Err(usage("--slot must appear once with a value in 0..=100"));
                    }
                    slot = Some(v);
                },
            }
            index = index + 2;
        } else if str_equals(a, "--package") {
            if !has_value {
                return Err(usage("--package requires a value"));
            }
            package = arguments[index + 1].clone();
            index = index + 2;
        } else if str_equals(a, "--allow-unchecked") && !allow_unchecked {
            allow_unchecked = true;
            index = index + 1;
        } else if str_equals(a, "--replace") && !replace {
            replace = true;
            index = index + 1;
        } else {
            return Err(UsageError(concat3("unknown or repeated import-python-save option `", a, "`")));
        }
    }
    let slot = match slot {
        Some(s) => s,
        None => {
            return Err(usage("import-python-save requires --slot"));
        },
    };
    let root = match ScenarioRoot::try_for_package_key(package.as_str()) {
        Ok(root) => root,
        Err(e) => {
            let reason = e.to_string();
            return Err(UsageError(concat4("invalid package key `", package.as_str(), "`: ", reason.as_str())));
        },
    };
    Ok(ImportPythonArguments { input: input.to_owned(), slot, root, allow_unchecked, replace })
}

/// A scenario command that reads one package and reports on it.
#[derive(Clone, Copy, Debug, PartialEq, Eq, Structural)]
pub enum ReportKind {
    Validate,
    MapReport,
    MapSweep,
    DialogueReport,
    DialogueSweep,
    EncounterSweep,
}

/// The report command named `c`.
pub open spec fn report_named(c: Seq<char>) -> Option<ReportKind> {
    if c == "validate-scenario"@ {
        Some(ReportKind::Validate)
    } else if c == "map-report"@ {
        Some(ReportKind::MapReport)
    } else if c == "map-sweep"@ {
        Some(ReportKind::MapSweep)
    } else if c == "dialogue-report"@ {
        Some(ReportKind::DialogueReport)
    } else if c == "dialogue-sweep"@ {
        Some(ReportKind::DialogueSweep)
    } else if c == "encounter-sweep"@ {
        Some(ReportKind::EncounterSweep)
    } else {
        None
    }
}

/// The report command that `command` names, if it names one.
pub fn report_kind(command: &str) -> (r: Option<ReportKind>)
    ensures
        r == report_named(command@),
{
    if str_equals(command, "validate-scenario") {
        Some(ReportKind::Validate)
    } else if str_equals(command, "map-report") {
        Some(ReportKind::MapReport)
    } else if str_equals(command, "map-sweep") {
        Some(ReportKind::MapSweep)
    } else if str_equals(command, "dialogue-report") {
        Some(ReportKind::DialogueReport)
    } else if str_equals(command, "dialogue-sweep") {
        Some(ReportKind::DialogueSweep)
    } else if str_equals(command, "encounter-sweep") {
        Some(ReportKind::EncounterSweep)
    } else {
        None
    }
}

/// One process invocation's command.
#[derive(Debug, PartialEq, Eq)]
pub enum Command {
    /// Play a scenario.
    Play(PlayArguments),
    /// Play a scenario, recording its normalized actions to `output`.
    Record { output: String, play: PlayArguments },
    /// Replay a recorded session.
    Replay(String),
    /// Validate a scenario package.
    Validate(ScenarioRoot),
    /// Report on a package's maps.
    MapReport(ScenarioRoot),
    /// Sweep a package's maps.
    MapSweep(ScenarioRoot),
    /// Report on a package's dialogue.
    DialogueReport(ScenarioRoot),
    /// Traverse a package's dialogue.
    DialogueSweep(ScenarioRoot),
    /// Sweep a package's encounters.
    EncounterSweep(ScenarioRoot),
    /// Import a legacy Python save.
    ImportPython(ImportPythonArguments),
    /// Print the usage text.
    Help,
}

/// What a command line asks for, as read from its text.
pub enum CommandPlan {
    Play(PlayScan),
    Record(Seq<char>, PlayScan),
    Replay(Seq<char>),
    Report(ReportKind, Seq<char>),
    ImportPython(ImportScan),
    Help,
}

/// `-h` or `--help`.
pub open spec fn is_help(s: Seq<char>) -> bool {
    s == "-h"@ || s == "--help"@
}

/// The settled scan of a plain launch: the default package and nothing else.
pub open spec fn default_scan() -> PlayScan {
    PlayScan { package: Some(DEFAULT_SCENARIO_PACKAGE_KEY@), ..play_start() }
}

/// The command that the arguments `args` (without the program name) ask for, or the misuse.
pub open spec fn command_outcome(args: Seq<Seq<char>>) -> Result<CommandPlan, Seq<char>> {
    let n = args.len();
    if n == 0 {
        Ok(CommandPlan::Play(default_scan()))
    } else {
        let c = args[0];
        if n == 2 && c == "play"@ && is_help(args[1]) {
            Ok(CommandPlan::Help)
        } else if c == "play"@ {
            match play_outcome(args.skip(1)) {
                Ok(st) => Ok(CommandPlan::Play(st)),
                Err(m) => Err(m),
            }
        } else if n == 2 && (c == "record"@ || c == "replay"@) && is_help(args[1]) {
            Ok(CommandPlan::Help)
        } else if n >= 2 && c == "record"@ && !dashed(args[1]) {
            match play_outcome(args.skip(2)) {
                Ok(st) => Ok(CommandPlan::Record(args[1], st)),
                Err(m) => Err(m),
            }
        } else if c == "record"@ {
            Err("record requires OUTPUT first"@)
        } else if n == 2 && c == "replay"@ && !dashed(args[1]) {
            Ok(CommandPlan::Replay(args[1]))
        } else if c == "replay"@ {
            Err("replay requires exactly one INPUT"@)
        } else if n == 1 && is_help(c) {
            Ok(CommandPlan::Help)
        } else if n == 2 && (report_named(c) is Some || c == "import-python-save"@) && is_help(
            args[1],
        ) {
            Ok(CommandPlan::Help)
        } else if report_named(c) is Some {
            let k = report_named(c)->0;
            if n == 1 {
                Ok(CommandPlan::Report(k, DEFAULT_SCENARIO_PACKAGE_KEY@))
            } else if n == 2 {
                match package_key_error(args[1]) {
                    Some(e) => Err(invalid_key_message(args[1], e)),
                    None => Ok(CommandPlan::Report(k, args[1])),
                }
            } else {
                Err(c + " accepts at most one package key"@)
            }
        } else if c == "import-python-save"@ {
            match import_outcome(args.skip(1)) {
                Ok(st) => Ok(CommandPlan::ImportPython(st)),
                Err(m) => Err(m),
            }
        } else {
            Err("unknown command `"@ + c + "`"@)
        }
    }
}

impl Command {
    /// This command is the one `plan` describes.
    pub open spec fn carries_out(&self, plan: CommandPlan) -> bool {
        match (*self, plan) {
            (Command::Play(p), CommandPlan::Play(st)) => p.describes(st),
            (Command::Record { output, play }, CommandPlan::Record(o, st)) => output@ == o
                && play.describes(st),
            (Command::Replay(i), CommandPlan::Replay(j)) => i@ == j,
            (Command::Validate(r), CommandPlan::Report(ReportKind::Validate, k)) => r.key_view()
                == k,
            (Command::MapReport(r), CommandPlan::Report(ReportKind::MapReport, k)) => r.key_view()
                == k,
            (Command::MapSweep(r), CommandPlan::Report(ReportKind::MapSweep, k)) => r.key_view()
                == k,
            (Command::DialogueReport(r), CommandPlan::Report(ReportKind::DialogueReport, k)) => r.key_view()
                == k,
            (Command::DialogueSweep(r), CommandPlan::Report(ReportKind::DialogueSweep, k)) => r.key_view()
                == k,
            (Command::EncounterSweep(r), CommandPlan::Report(ReportKind::EncounterSweep, k)) => r.key_view()
                == k,
            (Command::ImportPython(a), CommandPlan::ImportPython(st)) => a.describes(st),
            (Command::Help, CommandPlan::Help) => true,
            _ => false,
        }
    }
}

/// The arguments from position `from` on.
fn tail(arguments: &[String], from: usize) -> (r: Vec<String>)
    requires
        from <= arguments@.len(),
    ensures
        arguments_view(r@) == arguments_view(arguments@).skip(from as int),
{
    let mut out: Vec<String> = Vec::new();
    let mut i: usize = from;
    while i < arguments.len()
        invariant
            from <= i <= arguments@.len(),
            out@.len() == i - from,
            forall|k: int| 0 <= k < out@.len() ==> #[trigger] out@[k]@ == arguments@[from + k]@,
        decreases arguments@.len() - i,
    {
        out.push(arguments[i].clone());
        i = i + 1;
    }
    assert(arguments_view(out@) =~= arguments_view(arguments@).skip(from as int));
    out
}

/// Whether `s` is `-h` or `--help`.
fn help_flag(s: &str) -> (r: bool)
    ensures
        r == is_help(s@),
{
    str_equals(s, "-h") || str_equals(s, "--help")
}

/// Whether `s` begins with `-`.
fn starts_with_dash(s: &str) -> (r: bool)
    ensures
        r == dashed(s@),
{
    s.unicode_len() > 0 && s.get_char(0) == '-'
}

/// The report command of kind `kind` on `root`.
fn report_command(kind: ReportKind, root: ScenarioRoot) -> (r: Command)
    ensures
        r.carries_out(CommandPlan::Report(kind, root.key_view())),
{
    match kind {
        ReportKind::Validate => Command::Validate(root),
        ReportKind::MapReport => Command::MapReport(root),
        ReportKind::MapSweep => Command::MapSweep(root),
        ReportKind::DialogueReport => Command::DialogueReport(root),
        ReportKind::DialogueSweep => Command::DialogueSweep(root),
        ReportKind::EncounterSweep => Command::EncounterSweep(root),
    }
}

/// Reads one invocation's arguments (the program name left out) into its command. The usage
/// text lists the commands and their options.
pub fn parse_command(arguments: &[String]) -> (r: Result<Command, UsageError>)
    ensures
        match command_outcome(arguments_view(arguments@)) {
            Ok(plan) => r matches Ok(c) && c.carries_out(plan),
            Err(m) => r matches Err(e) && e.0@ == m,
        },
{
    let ghost args = arguments_view(arguments@);
    let n = arguments.len();
    if n == 0 {
        let play = default_play_arguments();
        return Ok(Command::Play(play));
    }
    let c = arguments[0].as_str();
    assert(args[0] == c@);
    if n >= 2 {
        assert(args[1] == arguments@[1]@);
    }
    let second_help = n == 2 && help_flag(arguments[1].as_str());
    let is_play = str_equals(c, "play");
    let is_record = str_equals(c, "record");
    let is_replay = str_equals(c, "replay");
    if is_play && second_help {
        return Ok(Command::Help);
    }
    if is_play {
        let rest = tail(arguments, 1);
        return match parse_play_arguments(rest.as_slice()) {
            Ok(play) => Ok(Command::Play(play)),
            Err(e) => Err(e),
        };
    }
    if (is_record || is_replay) && second_help {
        return Ok(Command::Help);
    }
    if is_record {
        if n >= 2 && !starts_with_dash(arguments[1].as_str()) {
            let rest = tail(arguments, 2);
            return match parse_play_arguments(rest.as_slice()) {
                Ok(play) => Ok(Command::Record { output: arguments[1].clone(), play }),
                Err(e) => Err(e),
            };
        }
        return Err(usage("record requires OUTPUT first"));
    }
    if is_replay {
        if n == 2 && !starts_with_dash(arguments[1].as_str()) {
            return Ok(Command::Replay(arguments[1].clone()));
        }
        return Err(usage("replay requires exactly one INPUT"));
    }
    if n == 1 && help_flag(c) {
        return Ok(Command::Help);
    }
    let kind = report_kind(c);
    let is_import = str_equals(c, "import-python-save");
    if (kind.is_some() || is_import) && second_help {
        return Ok(Command::Help);
    }
    match kind {
        Some(k) => {
            if n == 1 {
                let root = ScenarioRoot::default();
                return Ok(report_command(k, root));
            }
            if n == 2 {
                let key = arguments[1].as_str();
                return match ScenarioRoot::try_for_package_key(key) {
                    Ok(root) => Ok(report_command(k, root)),
                    Err(e) => {
                        let reason = e.to_string();
                        Err(UsageError(concat4("invalid package key `", key, "`: ", reason.as_str())))
                    },
                };
            }
            return Err(UsageError(concat2(c, " accepts at most one package key")));
        },
        None => {},
    }
    if is_import {
        let rest = tail(arguments, 1);
        return match parse_import_python_arguments(rest.as_slice()) {
            Ok(a) => Ok(Command::ImportPython(a)),
            Err(e) => Err(e),
        };
    }
    Err(UsageError(concat3("unknown command `", c, "`")))
}


/// An environment variable as the process sees it.
#[derive(Debug, PartialEq, Eq)]
pub enum VariableValue {
    /// The variable is not set.
    Unset,
    /// The variable is set but is not Unicode text.
    NotUnicode,
    /// The variable's text.
    Text(String),
}

/// Whether the command starts a session, as `play` and `record` do.
pub open spec fn starts_session(c: Command) -> bool {
    c is Play || c is Record
}

/// `after` is `before` with the debug party defaulted to `preset`: an explicit party wins, and
/// the other debug options stay as they were.
pub open spec fn preset_defaulted(before: PlayArguments, after: PlayArguments, preset: DebugPartyPreset) -> bool {
    &&& after.root == before.root
    &&& after.seed == before.seed
    &&& after.timings == before.timings
    &&& after.debug matches Some(d) && match before.debug {
        Some(b) => d.start_map == b.start_map && d.start_position == b.start_position
            && d.flag_overrides == b.flag_overrides && d.party_preset == if b.party_preset is Some {
            b.party_preset
        } else {
            Some(preset)
        },
        None => d.start_map is None && d.start_position is None && d.flag_overrides@ == Map::<
            Seq<char>,
            bool,
        >::empty() && d.party_preset == Some(preset),
    }
}

/// `after` is the session command `before` with its debug party defaulted to `preset`.
pub open spec fn command_preset_defaulted(before: Command, after: Command, preset: DebugPartyPreset) -> bool {
    match (before, after) {
        (Command::Play(b), Command::Play(a)) => preset_defaulted(b, a, preset),
        (Command::Record { output: o1, play: b }, Command::Record { output: o2, play: a }) => o1
            == o2 && preset_defaulted(b, a, preset),
        _ => false,
    }
}

fn is_session(command: &Command) -> (r: bool)
    ensures
        r == starts_session(*command),
{
    match command {
        Command::Play(_) => true,
        Command::Record { .. } => true,
        _ => false,
    }
}

/// `play` with its debug party defaulted to `preset`.
fn with_party_default(play: PlayArguments, preset: DebugPartyPreset) -> (r: PlayArguments)
    ensures
        preset_defaulted(play, r, preset),
{
    let PlayArguments { root, seed, timings, debug } = play;
    let mut d = match debug {
        Some(d) => d,
        None => DebugLaunchConfig::new(),
    };
    if d.party_preset.is_none() {
        d.party_preset = Some(preset);
    }
    let active = d.is_active();
    assert(active);
    PlayArguments { root, seed, timings, debug: Some(d) }
}

/// Fills in the debug party that the environment variable `RPG_S1_PARTY_PRESET` (`solo` or
/// `full`, surrounding whitespace ignored) asks for, on a `play` or `record` command. An explicit
/// `--party-preset` wins; a replay keeps what its record holds, and an unset variable changes
/// nothing.
pub fn apply_environment_debug_defaults(command: &mut Command, variable: VariableValue) -> (r: Result<(), UsageError>)
    ensures
        !starts_session(*old(command)) || variable is Unset ==> r is Ok && *final(command) == *old(
            command,
        ),
        starts_session(*old(command)) && variable is NotUnicode ==> (*final(command) == *old(
            command) && (r matches Err(e) && e.0@ == "RPG_S1_PARTY_PRESET must be valid UTF-8"@)),
        starts_session(*old(command)) ==> (variable matches VariableValue::Text(t) ==> match preset_named(trim(t@)) {
            None => *final(command) == *old(command) && (r matches Err(e) && e.0@
                == "RPG_S1_PARTY_PRESET requires solo|full"@),
            Some(p) => r is Ok && command_preset_defaulted(*old(command), *final(command), p),
        }),
{
    if !is_session(command) {
        return Ok(());
    }
    let text = match variable {
        VariableValue::Unset => {
            return Ok(());
        },
        VariableValue::NotUnicode => {
            return Err(usage("RPG_S1_PARTY_PRESET must be valid UTF-8"));
        },
        VariableValue::Text(t) => t,
    };
    let trimmed = trim_text(text.as_str());
    let preset = match parse_party_preset(trimmed.as_str()) {
        Some(p) => p,
        None => {
            return Err(usage("RPG_S1_PARTY_PRESET requires solo|full"));
        },
    };
    let mut taken = Command::Help;
    std::mem::swap(&mut taken, command);
    let result = match taken {
        Command::Play(play) => Command::Play(with_party_default(play, preset)),
        Command::Record { output, play } => Command::Record {
            output,
            play: with_party_default(play, preset),
        },
        other => other,
    };
    *command = result;
    Ok(())
}

/// The name a debug party is logged by.
pub open spec fn preset_label(p: DebugPartyPreset) -> Seq<char> {
    match p {
        DebugPartyPreset::Solo => "solo"@,
        DebugPartyPreset::Full => "full"@,
    }
}

/// The log line of one flag override.
pub open spec fn flag_line(e: (Seq<char>, bool)) -> Seq<char> {
    "Debug flag override: "@ + e.0 + "="@ + if e.1 {
        "set"@
    } else {
        "unset"@
    }
}

/// The lines a debug launch is logged with: the start map and tile, the party preset, each flag
/// override in flag order, and a reminder that none of it is saved on its own.
pub open spec fn debug_log(d: DebugLaunchConfig) -> Seq<Seq<char>> {
    let start = match (d.start_map, d.start_position) {
        (Some(m), Some(p)) => seq![
            "Debug start: "@ + m@ + " at ["@ + signed_decimal(p.x as int) + ", "@ + signed_decimal(
                p.y as int,
            ) + "]"@,
        ],
        _ => Seq::empty(),
    };
    let party = match d.party_preset {
        Some(p) => seq!["Debug party preset: "@ + preset_label(p)],
        None => Seq::empty(),
    };
    let flags = Seq::new(d.flag_overrides.ordered().len(), |i: int| flag_line(d.flag_overrides.ordered()[i]));
    start + party + flags + seq!["Debug overrides are session-only until an explicit manual save"@]
}

/// The text of each string.
pub open spec fn texts(v: Seq<String>) -> Seq<Seq<char>> {
    Seq::new(v.len(), |i: int| v[i]@)
}

/// The log lines of a debug launch; none without one.
pub fn debug_log_lines(debug: Option<&DebugLaunchConfig>) -> (r: Vec<String>)
    ensures
        texts(r@) == match debug {
            Some(d) => debug_log(*d),
            None => Seq::empty(),
        },
{
    let mut out: Vec<String> = Vec::new();
    let d = match debug {
        Some(d) => d,
        None => {
            assert(texts(out@) =~= Seq::<Seq<char>>::empty());
            return out;
        },
    };
    match (&d.start_map, &d.start_position) {
        (Some(map), Some(position)) => {
            let x = signed_decimal_string(position.x as i64);
            let y = signed_decimal_string(position.y as i64);
            let mut line = concat4("Debug start: ", map.as_str(), " at [", x.as_str());
            line.append(", ");
            line.append(y.as_str());
            line.append("]");
            out.push(line);
        },
        _ => {},
    }
    match d.party_preset {
        Some(p) => {
            let label = match p {
                DebugPartyPreset::Solo => "solo",
                DebugPartyPreset::Full => "full",
            };
            out.push(concat2("Debug party preset: ", label));
        },
        None => {},
    }
    let ghost head = texts(out@);
    let entries = d.flag_overrides.entries();
    let mut i: usize = 0;
    while i < entries.len()
        invariant
            i <= entries@.len(),
            entry_views(entries@) == d.flag_overrides.ordered(),
            texts(out@) == head + Seq::new(i as nat, |k: int| flag_line(d.flag_overrides.ordered()[k])),
        decreases entries@.len() - i,
    {
        let mut line = concat4("Debug flag override: ", entries[i].0.as_str(), "=", if entries[i].1 {
            "set"
        } else {
            "unset"
        });
        assert(entry_views(entries@)[i as int] == (entries@[i as int].0@, entries@[i as int].1));
        let ghost before = texts(out@);
        out.push(line);
        assert(texts(out@) =~= before.push(line@));
        assert(texts(out@) =~= head + Seq::new((i + 1) as nat, |k: int| flag_line(d.flag_overrides.ordered()[k])));
        i = i + 1;
    }
    let ghost before = texts(out@);
    out.push("Debug overrides are session-only until an explicit manual save".to_owned());
    assert(texts(out@) =~= before.push("Debug overrides are session-only until an explicit manual save"@));
    assert(texts(out@) =~= debug_log(*d));
    out
}


/// The lines a session is announced with: its seed, whether frame timings are logged, and its
/// debug launch.
pub open spec fn session_log(play: PlayArguments) -> Seq<Seq<char>> {
    seq!["Gameplay seed: "@ + decimal(play.seed as nat)] + if play.timings {
        seq!["Per-system frame timing: enabled"@]
    } else {
        Seq::empty()
    } + match play.debug {
        Some(d) => debug_log(d),
        None => Seq::empty(),
    }
}

/// The lines a session is announced with before it launches.
pub fn session_lines(play: &PlayArguments) -> (r: Vec<String>)
    ensures
        texts(r@) == session_log(*play),
{
    let seed = decimal_string(play.seed);
    let mut out: Vec<String> = Vec::new();
    out.push(concat2("Gameplay seed: ", seed.as_str()));
    if play.timings {
        out.push("Per-system frame timing: enabled".to_owned());
    }
    let ghost head = texts(out@);
    let debug = debug_log_lines(play.debug.as_ref());
    let mut i: usize = 0;
    while i < debug.len()
        invariant
            i <= debug@.len(),
            out@.len() == head.len() + i,
            texts(out@) == head + texts(debug@).take(i as int),
        decreases debug@.len() - i,
    {
        let line = debug[i].clone();
        assert(line@ == texts(debug@)[i as int]);
        let ghost before = texts(out@);
        out.push(line);
        assert(texts(out@) =~= before.push(texts(debug@)[i as int]));
        assert(texts(out@) =~= head + texts(debug@).take(i + 1));
        i = i + 1;
    }
    assert(texts(debug@).take(i as int) =~= texts(debug@));
    assert(texts(out@) =~= session_log(*play));
    out
}

/// What a misused command line prints: the reason, a blank line, and the usage text.
pub fn usage_failure(error: &UsageError) -> (r: String)
    ensures
        r@ == "error: "@ + error.0@ + "\n\n"@ + USAGE@,
{
    concat4("error: ", error.0.as_str(), "\n\n", USAGE)
}


/// A bare launch is the same command as `play` with no options: the default package, seed 1,
/// no timings and no debug launch.
pub proof fn lemma_bare_launch_is_plain_play()
    ensures
        command_outcome(Seq::<Seq<char>>::empty()) == command_outcome(seq!["play"@]),
        command_outcome(Seq::<Seq<char>>::empty()) == Ok::<CommandPlan, Seq<char>>(
            CommandPlan::Play(default_scan()),
        ),
{
    reveal_strlit("rusted_kingdoms");
    let args = seq!["play"@];
    assert(args[0] == "play"@);
    assert(args.skip(1) =~= Seq::<Seq<char>>::empty());
    assert(play_scan(Seq::<Seq<char>>::empty(), 0, play_start()) == Ok::<PlayScan, Seq<char>>(
        play_start(),
    ));
    assert(package_key_error(DEFAULT_SCENARIO_PACKAGE_KEY@) is None);
}

} // verus!
