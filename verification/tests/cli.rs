use rpg_s1::cli::{
    apply_environment_debug_defaults, debug_log_lines, default_play_arguments, parse_command,
    parse_import_python_arguments, parse_party_preset, parse_play_arguments, parse_position,
    session_lines, usage_failure, valid_debug_flag_id, Command, UsageError, VariableValue,
    EXIT_SUCCESS, EXIT_USAGE, EXIT_VALIDATION_FAILED, USAGE,
};
use rpg_s1::debug_launch::{DebugLaunchConfig, DebugPartyPreset, FlagOverrides};
use rpg_s1::gameplay_rng::DEFAULT_GAMEPLAY_SEED;
use rpg_s1::scenario_root::DEFAULT_SCENARIO_PACKAGE_KEY;
use rpg_s1::scenario_transport::Position;
use rpg_s1::text::{parse_i32, parse_u64, parse_usize};

fn args(items: &[&str]) -> Vec<String> {
    items.iter().map(|item| item.to_string()).collect()
}

fn command(items: &[&str]) -> Result<Command, UsageError> {
    parse_command(&args(items))
}

fn preset(value: Option<&str>) -> VariableValue {
    match value {
        Some(text) => VariableValue::Text(text.to_owned()),
        None => VariableValue::Unset,
    }
}

#[test]
fn python_import_arguments_are_explicit_and_bounded() {
    let Command::ImportPython(arguments) = command(&[
        "import-python-save",
        "legacy/007.yaml",
        "--slot",
        "7",
        "--package",
        "rusted_kingdoms",
        "--allow-unchecked",
        "--replace",
    ])
    .unwrap() else {
        panic!("import command must select the converter");
    };
    assert_eq!(arguments.input, "legacy/007.yaml");
    assert_eq!(arguments.slot, 7);
    assert_eq!(arguments.root.package_key(), "rusted_kingdoms");
    assert!(arguments.allow_unchecked);
    assert!(arguments.replace);
}

#[test]
fn the_party_preset_env_var_starts_a_bare_launch_directly_in_the_world() {
    let mut command = command(&[]).unwrap();
    let Command::Play(before) = &command else {
        unreachable!()
    };
    assert!(before.debug.is_none());

    apply_environment_debug_defaults(&mut command, preset(Some("full"))).unwrap();
    let Command::Play(after) = &command else {
        unreachable!()
    };
    let debug = after.debug.as_ref().expect("the env var activates debug");
    assert_eq!(debug.party_preset, Some(DebugPartyPreset::Full));
    assert!(debug.is_active());
}

#[test]
fn an_explicit_party_preset_flag_beats_the_env_var() {
    let mut command = command(&["play", "--party-preset", "solo"]).unwrap();
    apply_environment_debug_defaults(&mut command, preset(Some("full"))).unwrap();
    let Command::Play(play) = &command else {
        unreachable!()
    };
    assert_eq!(
        play.debug.as_ref().unwrap().party_preset,
        Some(DebugPartyPreset::Solo)
    );
}

#[test]
fn the_party_preset_env_var_leaves_replay_and_absent_values_alone() {
    let mut replay = command(&["replay", "trace.yaml"]).unwrap();
    apply_environment_debug_defaults(&mut replay, preset(Some("full"))).unwrap();
    let Command::Replay(input) = &replay else {
        panic!("replay must stay a replay command");
    };
    assert_eq!(input, "trace.yaml");

    let mut command = command(&["play"]).unwrap();
    apply_environment_debug_defaults(&mut command, preset(None)).unwrap();
    let Command::Play(play) = &command else {
        unreachable!()
    };
    assert!(play.debug.is_none(), "an unset env var changes nothing");
}

#[test]
fn a_recorded_session_captures_the_env_var_preset_it_ran_with() {
    let mut command = command(&["record", "trace.yaml", "invented"]).unwrap();
    apply_environment_debug_defaults(&mut command, preset(Some("full"))).unwrap();
    let Command::Record { play, .. } = &command else {
        unreachable!()
    };
    assert_eq!(
        play.debug.as_ref().unwrap().party_preset,
        Some(DebugPartyPreset::Full)
    );
}

#[test]
fn an_unreadable_party_preset_env_var_is_a_usage_error() {
    let mut command = command(&["play"]).unwrap();
    let error = apply_environment_debug_defaults(&mut command, preset(Some("everyone"))).unwrap_err();
    assert!(error.0.contains("requires solo|full"), "got {}", error.0);
    let mut padded = parse_command(&args(&["play"])).unwrap();
    apply_environment_debug_defaults(&mut padded, preset(Some(" full "))).unwrap();
    let Command::Play(play) = &padded else {
        unreachable!()
    };
    assert_eq!(
        play.debug.as_ref().unwrap().party_preset,
        Some(DebugPartyPreset::Full)
    );
}

#[test]
fn debug_play_options_are_typed_repeatable_and_isolated_from_normal_play() {
    let Command::Play(arguments) = command(&[
        "play",
        "invented",
        "--start-map",
        "town_01",
        "--start-position",
        "10,12",
        "--party-preset",
        "full",
        "--timings",
        "--set-flag",
        "quest_ready",
        "--unset-flag",
        "quest_hidden",
    ])
    .unwrap() else {
        panic!("debug options should remain a play command");
    };
    let debug = arguments.debug.unwrap();
    assert_eq!(arguments.root.package_key(), "invented");
    assert_eq!(debug.start_map.as_deref(), Some("town_01"));
    assert_eq!(debug.start_position, Some(Position::new(10, 12)));
    assert_eq!(debug.party_preset, Some(DebugPartyPreset::Full));
    assert!(arguments.timings);
    assert_eq!(debug.flag_overrides.get("quest_ready"), Some(true));
    assert_eq!(debug.flag_overrides.get("quest_hidden"), Some(false));

    let Command::Play(normal) = command(&["play"]).unwrap() else {
        unreachable!()
    };
    assert!(normal.debug.is_none());

    for invalid in [
        vec!["play", "--start-map", "town_01"],
        vec!["play", "--start-position", "10,12"],
        vec!["play", "--party-preset", "unknown"],
        vec!["play", "--set-flag", "bad flag"],
        vec!["play", "--set-flag", "same", "--unset-flag", "same"],
    ] {
        assert!(command(&invalid).is_err());
    }
}

#[test]
fn argument_misuse_is_a_usage_error() {
    for arguments in [
        vec!["unknown"],
        vec!["validate-scenario", "../escape"],
        vec!["validate-scenario", "one", "two"],
        vec!["map-report", "../escape"],
        vec!["map-report", "one", "two"],
        vec!["map-sweep", "../escape"],
        vec!["map-sweep", "one", "two"],
        vec!["dialogue-report", "../escape"],
        vec!["dialogue-report", "one", "two"],
        vec!["record"],
        vec!["record", "--seed", "1"],
        vec!["replay"],
        vec!["replay", "one", "two"],
        vec!["import-python-save"],
        vec!["import-python-save", "save.yaml"],
        vec!["import-python-save", "save.yaml", "--slot", "101"],
    ] {
        assert!(command(&arguments).is_err(), "{arguments:?}");
    }
}

#[test]
fn misuse_messages_name_the_problem() {
    assert_eq!(command(&["unknown"]).unwrap_err().0, "unknown command `unknown`");
    assert_eq!(
        command(&["map-report", "one", "two"]).unwrap_err().0,
        "map-report accepts at most one package key"
    );
    assert_eq!(
        command(&["validate-scenario", "../escape"]).unwrap_err().0,
        "invalid package key `../escape`: package key must begin with a lowercase ASCII letter or digit"
    );
    assert_eq!(command(&["record"]).unwrap_err().0, "record requires OUTPUT first");
    assert_eq!(command(&["record", "--seed", "1"]).unwrap_err().0, "record requires OUTPUT first");
    assert_eq!(command(&["replay"]).unwrap_err().0, "replay requires exactly one INPUT");
    assert_eq!(
        command(&["import-python-save"]).unwrap_err().0,
        "import-python-save requires INPUT"
    );
    assert_eq!(
        command(&["import-python-save", "save.yaml"]).unwrap_err().0,
        "import-python-save requires --slot"
    );
    assert_eq!(
        command(&["import-python-save", "save.yaml", "--slot", "101"]).unwrap_err().0,
        "--slot must appear once with a value in 0..=100"
    );
    assert_eq!(
        command(&["import-python-save", "save.yaml", "--slot", "x"]).unwrap_err().0,
        "--slot must be an integer in 0..=100"
    );
    assert_eq!(
        command(&["import-python-save", "--slot", "1"]).unwrap_err().0,
        "import-python-save INPUT must come first"
    );
    assert_eq!(
        command(&["import-python-save", "a", "--slot", "1", "--replace", "--replace"])
            .unwrap_err()
            .0,
        "unknown or repeated import-python-save option `--replace`"
    );
    assert_eq!(
        command(&["play", "--timings", "--timings"]).unwrap_err().0,
        "unknown play option `--timings`"
    );
    assert_eq!(
        command(&["play", "a", "b"]).unwrap_err().0,
        "play accepts at most one package key"
    );
    assert_eq!(
        command(&["play", "--set-flag"]).unwrap_err().0,
        "--set-flag requires FLAG_ID"
    );
    assert_eq!(
        command(&["play", "--unset-flag", "bad flag"]).unwrap_err().0,
        "--unset-flag requires a unique nonempty FLAG_ID"
    );
    assert_eq!(
        command(&["play", "--start-map", "m"]).unwrap_err().0,
        "--start-map and --start-position must be supplied together"
    );
    assert_eq!(
        command(&["play", "--start-map", ""]).unwrap_err().0,
        "--start-map must appear once with a nonempty MAP_ID"
    );
    assert_eq!(
        command(&["play", "--start-position", "1;2"]).unwrap_err().0,
        "--start-position requires X,Y"
    );
}

#[test]
fn play_seed_is_bounded_to_u64() {
    let max = u64::MAX.to_string();
    let Command::Play(play) = command(&["play", "--seed", &max]).unwrap() else {
        panic!("a seed keeps the play command");
    };
    assert_eq!(play.root.package_key(), DEFAULT_SCENARIO_PACKAGE_KEY);
    assert_eq!(play.seed, u64::MAX);
    assert_eq!(session_lines(&play), vec![format!("Gameplay seed: {}", u64::MAX)]);

    for arguments in [
        vec!["play", "--seed"],
        vec!["play", "--seed", "-1"],
        vec!["play", "--seed", "not-a-seed"],
        vec!["play", "--seed", "18446744073709551616"],
    ] {
        assert_eq!(command(&arguments).unwrap_err().0, "--seed requires a U64 value");
    }
    assert_eq!(
        command(&["play", "--seed", "1", "--seed", "2"]).unwrap_err().0,
        "--seed may appear only once"
    );
}

#[test]
fn no_subcommand_plays_the_default_scenario_with_seed_one() {
    let Command::Play(play) = command(&[]).unwrap() else {
        panic!("a bare launch plays");
    };
    assert_eq!(play.root.package_key(), DEFAULT_SCENARIO_PACKAGE_KEY);
    assert_eq!(play.seed, DEFAULT_GAMEPLAY_SEED);
    assert_eq!(session_lines(&play), vec!["Gameplay seed: 1".to_owned()]);
    assert_eq!(default_play_arguments(), play);
}

#[test]
fn help_flags_select_help_and_scenario_commands_default_their_package() {
    for arguments in [
        vec!["-h"],
        vec!["--help"],
        vec!["play", "-h"],
        vec!["record", "--help"],
        vec!["replay", "-h"],
        vec!["map-sweep", "--help"],
        vec!["import-python-save", "-h"],
    ] {
        assert_eq!(command(&arguments).unwrap(), Command::Help, "{arguments:?}");
    }
    match command(&["validate-scenario"]).unwrap() {
        Command::Validate(root) => assert_eq!(root.package_key(), "rusted_kingdoms"),
        other => panic!("unexpected {other:?}"),
    }
    match command(&["encounter-sweep", "invented"]).unwrap() {
        Command::EncounterSweep(root) => assert_eq!(root.package_key(), "invented"),
        other => panic!("unexpected {other:?}"),
    }
    match command(&["record", "out.yaml", "--seed", "9"]).unwrap() {
        Command::Record { output, play } => {
            assert_eq!(output, "out.yaml");
            assert_eq!(play.seed, 9);
        }
        other => panic!("unexpected {other:?}"),
    }
}

#[test]
fn environment_preset_errors_and_non_session_commands() {
    let mut command = command(&["play"]).unwrap();
    let error = apply_environment_debug_defaults(&mut command, VariableValue::NotUnicode).unwrap_err();
    assert_eq!(error.0, "RPG_S1_PARTY_PRESET must be valid UTF-8");
    let mut help = parse_command(&args(&["--help"])).unwrap();
    assert!(apply_environment_debug_defaults(&mut help, VariableValue::NotUnicode).is_ok());
    assert_eq!(help, Command::Help);
}

#[test]
fn debug_log_lists_start_party_and_flags_in_order() {
    let mut flags = FlagOverrides::new();
    flags.insert("zeta".to_owned(), true);
    flags.insert("alpha".to_owned(), false);
    flags.insert("zeta".to_owned(), false);
    let debug = DebugLaunchConfig {
        start_map: Some("town_01".to_owned()),
        start_position: Some(Position::new(-3, 12)),
        party_preset: Some(DebugPartyPreset::Solo),
        flag_overrides: flags,
    };
    assert_eq!(
        debug_log_lines(Some(&debug)),
        vec![
            "Debug start: town_01 at [-3, 12]".to_owned(),
            "Debug party preset: solo".to_owned(),
            "Debug flag override: alpha=unset".to_owned(),
            "Debug flag override: zeta=unset".to_owned(),
            "Debug overrides are session-only until an explicit manual save".to_owned(),
        ]
    );
    assert!(debug_log_lines(None).is_empty());
    assert_eq!(
        debug.flag_overrides.entries(),
        vec![("alpha".to_owned(), false), ("zeta".to_owned(), false)]
    );
}

#[test]
fn usage_failure_prints_the_reason_then_the_usage() {
    let text = usage_failure(&UsageError("unknown command `x`".to_owned()));
    assert_eq!(text, format!("error: unknown command `x`\n\n{USAGE}"));
    assert!(USAGE.starts_with("Usage:"));
    assert_eq!((EXIT_SUCCESS, EXIT_VALIDATION_FAILED, EXIT_USAGE), (0, 1, 2));
}

#[test]
fn small_readers_follow_std_parsing() {
    assert_eq!(parse_u64("+42"), Some(42));
    assert_eq!(parse_u64("007"), Some(7));
    assert_eq!(parse_u64(""), None);
    assert_eq!(parse_u64("+"), None);
    assert_eq!(parse_u64("1 "), None);
    assert_eq!(parse_usize("100"), Some(100));
    assert_eq!(parse_i32("-2147483648"), Some(i32::MIN));
    assert_eq!(parse_i32("2147483647"), Some(i32::MAX));
    assert_eq!(parse_i32("2147483648"), None);
    assert_eq!(parse_i32("-"), None);
    assert_eq!(parse_position("10,-12"), Some(Position::new(10, -12)));
    assert_eq!(parse_position("10,12,14"), None);
    assert_eq!(parse_position("1012"), None);
    assert_eq!(parse_party_preset("solo"), Some(DebugPartyPreset::Solo));
    assert_eq!(parse_party_preset("Solo"), None);
    assert!(valid_debug_flag_id("quest.ready-1_A"));
    assert!(!valid_debug_flag_id(""));
    assert!(!valid_debug_flag_id("é"));
    for (text, ok) in [("0", true), ("99", true)] {
        assert_eq!(parse_play_arguments(&args(&["--seed", text])).is_ok(), ok);
    }
    assert!(parse_import_python_arguments(&args(&["in", "--slot", "0"])).is_ok());
}

#[test]
fn import_options_take_the_last_package_and_one_slot() {
    let parsed = parse_import_python_arguments(&args(&[
        "save.json",
        "--package",
        "first_pack",
        "--slot",
        "3",
        "--package",
        "second_pack",
    ]))
    .unwrap();
    assert_eq!(parsed.slot, 3);
    assert_eq!(parsed.root.package_key(), "second_pack");
    assert!(parse_import_python_arguments(&args(&["save.json", "--slot", "3", "--slot", "4"])).is_err());
    assert!(parse_import_python_arguments(&args(&["save.json", "--package", "p"])).is_err());
    assert!(parse_import_python_arguments(&args(&["save.json", "--slot", "1", "--replace", "--replace"])).is_err());
}
