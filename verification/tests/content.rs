use std::collections::HashSet;

use rpg_s1::scenario_balance::BalanceData;
use rpg_s1::scenario_condition::FlagConditions;
use rpg_s1::scenario_duplicate_id::{
    find_duplicate_ids, validate_unique_ids, CatalogId, CatalogIdLocation, CatalogIdLocationError,
    CatalogNamespace,
};
use rpg_s1::scenario_path::{ScenarioRelativePath, ScenarioRelativePathError};
use rpg_s1::scenario_root::{
    ScenarioPackageKeyError, ScenarioRoot, DEFAULT_SCENARIO_PACKAGE_KEY, SCENARIO_MANIFEST_PATH,
};
use rpg_s1::scenario_validation_baseline::{compare_to_baseline, parse_baseline};

#[test]
fn requires_every_required_flag_and_rejects_any_excluded_flag() {
    let conditions = FlagConditions {
        requires: vec!["quest_started".to_owned(), "key_found".to_owned()],
        excludes: vec!["quest_done".to_owned(), "gate_destroyed".to_owned()],
    };

    for (active, expected) in [
        (&[][..], false),
        (&["quest_started"][..], false),
        (&["quest_started", "key_found"][..], true),
        (&["quest_started", "key_found", "quest_done"][..], false),
        (&["quest_started", "key_found", "gate_destroyed"][..], false),
    ] {
        let active = active.iter().copied().collect::<HashSet<_>>();
        assert_eq!(
            conditions.is_satisfied_by(|flag| active.contains(flag)),
            expected
        );
    }
}

#[test]
fn empty_conditions_match_every_flag_set() {
    assert!(FlagConditions::default().is_satisfied_by(|_| false));
    assert!(FlagConditions::default().is_satisfied_by(|_| true));
}

#[test]
fn duplicate_required_flags_do_not_change_the_answer() {
    let conditions = FlagConditions {
        requires: vec!["a".to_owned(), "a".to_owned()],
        excludes: vec!["b".to_owned(), "b".to_owned()],
    };
    assert!(conditions.is_satisfied_by(|flag| flag == "a"));
    assert!(!conditions.is_satisfied_by(|flag| flag == "a" || flag == "b"));
}

fn at(path: &str, field: &str) -> CatalogIdLocation {
    CatalogIdLocation::new(path, field).expect("test location should be valid")
}

#[test]
fn locations_reject_escaping_absolute_and_empty_field_paths() {
    for path in ["/outside.yaml", "../outside.yaml"] {
        assert!(matches!(
            CatalogIdLocation::new(path, "[0].id"),
            Err(CatalogIdLocationError::InvalidPath(_))
        ));
    }
    assert_eq!(
        CatalogIdLocation::new("data/items.yaml", ""),
        Err(CatalogIdLocationError::EmptyFieldPath)
    );
    let location = at("data/items.yaml", "[0].id");
    assert_eq!(location.path().as_str(), "data/items.yaml");
    assert_eq!(location.field_path(), "[0].id");
    assert_eq!(location.to_string(), "data/items.yaml#[0].id");

    let validated = ScenarioRelativePath::try_from("data/quests.yaml").unwrap();
    assert_eq!(
        CatalogIdLocation::new(validated.as_str(), "[1].id")
            .unwrap()
            .to_string(),
        "data/quests.yaml#[1].id"
    );
}

#[test]
fn duplicate_fixture_reports_id_and_both_stable_locations() {
    let report = find_duplicate_ids(vec![
        CatalogId::scenario_wide(
            CatalogNamespace::Items,
            "invented_ether",
            at("data/items/consumables.yaml", "[0].id"),
        ),
        CatalogId::scenario_wide(
            CatalogNamespace::Items,
            "invented_ether",
            at("data/items/materials.yaml", "[3].id"),
        ),
    ]);
    assert_eq!(report.len(), 1);
    assert_eq!(report[0].id, "invented_ether");
    assert_eq!(
        report[0].first.to_string(),
        "data/items/consumables.yaml#[0].id"
    );
    assert_eq!(
        report[0].duplicate.to_string(),
        "data/items/materials.yaml#[3].id"
    );
    assert_eq!(
        report[0].to_string(),
        "duplicate items id `invented_ether`: first at data/items/consumables.yaml#[0].id; duplicated at data/items/materials.yaml#[3].id"
    );
}

#[test]
fn intentionally_separate_namespaces_are_not_conflated() {
    let ids = vec![
        CatalogId::scenario_wide(
            CatalogNamespace::Items,
            "key",
            at("data/items/key_items.yaml", "[0].id"),
        ),
        CatalogId::scenario_wide(
            CatalogNamespace::Abilities,
            "key",
            at("data/classes/rogue.yaml", "abilities[0].id"),
        ),
        CatalogId::scenario_wide(
            CatalogNamespace::Bgm,
            "battle.normal",
            at("data/audio/bgm_index.yaml", "battle.normal"),
        ),
        CatalogId::scenario_wide(
            CatalogNamespace::Sfx,
            "normal",
            at("data/audio/sfx_index.yaml", "ui.normal"),
        ),
    ];
    assert_eq!(validate_unique_ids(ids), Ok(()));
}

#[test]
fn item_box_ids_are_unique_per_map_not_globally() {
    let ids = vec![
        CatalogId::scoped(
            CatalogNamespace::ItemBoxes,
            "town_ardel",
            "chest",
            at("data/maps/town_ardel.yaml", "item_boxes[0].id"),
        ),
        CatalogId::scoped(
            CatalogNamespace::ItemBoxes,
            "forest",
            "chest",
            at("data/maps/forest.yaml", "item_boxes[0].id"),
        ),
    ];
    assert_eq!(validate_unique_ids(ids), Ok(()));
}

#[test]
fn three_equal_ids_give_two_reports_anchored_at_the_first() {
    let ids = vec![
        CatalogId::scoped(CatalogNamespace::Npcs, "town", "guard", at("data/maps/town.yaml", "npcs[0].id")),
        CatalogId::scoped(CatalogNamespace::Npcs, "town", "guard", at("data/maps/town.yaml", "npcs[4].id")),
        CatalogId::scoped(CatalogNamespace::Npcs, "town", "guard", at("data/maps/town.yaml", "npcs[7].id")),
    ];
    let report = validate_unique_ids(ids).unwrap_err();
    assert_eq!(report.len(), 2);
    assert_eq!(report[0].first.field_path(), "npcs[0].id");
    assert_eq!(report[1].first.field_path(), "npcs[0].id");
    assert_eq!(report[0].duplicate.field_path(), "npcs[4].id");
    assert_eq!(report[1].duplicate.field_path(), "npcs[7].id");
    assert_eq!(
        report[1].to_string(),
        "duplicate npcs id `guard` in scope `town`: first at data/maps/town.yaml#npcs[0].id; duplicated at data/maps/town.yaml#npcs[7].id"
    );
}

#[test]
fn namespace_names_are_snake_case() {
    assert_eq!(CatalogNamespace::FieldUseItems.as_str(), "field_use_items");
    assert_eq!(CatalogNamespace::BossMoveSets.as_str(), "boss_move_sets");
    assert_eq!(CatalogNamespace::Sfx.as_str(), "sfx");
}

#[test]
fn scenario_relative_paths_report_the_first_broken_rule() {
    assert_eq!(ScenarioRelativePath::try_from("").unwrap_err(), ScenarioRelativePathError::Empty);
    assert_eq!(ScenarioRelativePath::try_from("/a").unwrap_err(), ScenarioRelativePathError::Absolute);
    assert_eq!(ScenarioRelativePath::try_from("a\\b").unwrap_err(), ScenarioRelativePathError::Backslash);
    assert_eq!(ScenarioRelativePath::try_from("c:/a").unwrap_err(), ScenarioRelativePathError::DriveOrScheme);
    assert_eq!(ScenarioRelativePath::try_from("a//b").unwrap_err(), ScenarioRelativePathError::EmptyComponent);
    assert_eq!(ScenarioRelativePath::try_from("a/").unwrap_err(), ScenarioRelativePathError::EmptyComponent);
    assert_eq!(ScenarioRelativePath::try_from("a/./b").unwrap_err(), ScenarioRelativePathError::DotComponent);
    assert_eq!(ScenarioRelativePath::try_from("..").unwrap_err(), ScenarioRelativePathError::DotComponent);
    assert_eq!(ScenarioRelativePath::try_from("a/..").unwrap_err(), ScenarioRelativePathError::DotComponent);
    assert_eq!(ScenarioRelativePath::try_from(".hidden/a..b").unwrap().as_str(), ".hidden/a..b");
}

#[test]
fn default_manifest_and_nested_path_resolve_under_rusted_kingdoms() {
    let root = ScenarioRoot::default();
    let map_path = ScenarioRelativePath::try_from("assets/maps/town_01_ardel.tmx").unwrap();

    assert_eq!(root.package_key(), DEFAULT_SCENARIO_PACKAGE_KEY);
    assert_eq!(root.logical_root(), "scenarios/rusted_kingdoms");
    assert_eq!(
        root.manifest_asset_path(),
        "scenarios/rusted_kingdoms/manifest.yaml"
    );
    assert_eq!(
        root.resolve(&map_path),
        "scenarios/rusted_kingdoms/assets/maps/town_01_ardel.tmx"
    );
}

#[test]
fn another_package_key_changes_only_the_logical_root() {
    let root = ScenarioRoot::try_for_package_key("test_campaign-2").unwrap();
    let dialogue_path = ScenarioRelativePath::try_from("data/dialogue/opening.yaml").unwrap();

    assert_eq!(root.package_key(), "test_campaign-2");
    assert_eq!(root.logical_root(), "scenarios/test_campaign-2");
    assert_eq!(
        root.manifest_asset_path(),
        "scenarios/test_campaign-2/manifest.yaml"
    );
    assert_eq!(
        root.resolve(&dialogue_path),
        "scenarios/test_campaign-2/data/dialogue/opening.yaml"
    );
}

#[test]
fn invalid_package_keys_cannot_construct_a_scenario_root() {
    assert_eq!(
        ScenarioRoot::try_for_package_key(""),
        Err(ScenarioPackageKeyError::Empty)
    );

    for package_key in [
        "-campaign",
        "_campaign",
        ".campaign",
        ".",
        "..",
        "/campaign",
        "Rusted_Kingdoms",
    ] {
        assert_eq!(
            ScenarioRoot::try_for_package_key(package_key),
            Err(ScenarioPackageKeyError::InvalidFirstCharacter),
            "{package_key}"
        );
    }

    for package_key in [
        "rusted_Kingdoms",
        "campaign/name",
        "campaign\\name",
        "c:/campaign",
        "campaign.name",
        "campaign name",
        "campaign!",
    ] {
        assert_eq!(
            ScenarioRoot::try_for_package_key(package_key),
            Err(ScenarioPackageKeyError::InvalidCharacter),
            "{package_key}"
        );
    }
}

#[test]
fn logical_asset_paths_remain_relative() {
    let root = ScenarioRoot::default();
    let manifest_path = ScenarioRelativePath::try_from("manifest.yaml").unwrap();
    let audio_path = ScenarioRelativePath::try_from("assets/audio/overworld.ogg").unwrap();

    for path in [
        root.logical_root().to_owned(),
        root.resolve(&manifest_path),
        root.resolve(&audio_path),
    ] {
        assert!(!path.starts_with('/'));
        assert!(!path.starts_with("assets/"));
        assert!(!path.contains(":"));
    }
}

#[derive(Debug, Eq, PartialEq)]
struct ParseError {
    message: &'static str,
}

#[test]
fn manifest_load_error_reports_package_relative_path_and_missing_cause() {
    let root = ScenarioRoot::default();
    let error = root.manifest_load_error(std::io::Error::new(
        std::io::ErrorKind::NotFound,
        "manifest file was not found",
    ));

    let rendered = error.describe(&error.underlying().to_string());
    assert_eq!(
        rendered,
        "rusted_kingdoms:manifest.yaml: manifest file was not found"
    );
    assert_eq!(error.package_key(), DEFAULT_SCENARIO_PACKAGE_KEY);
    assert_eq!(error.scenario_relative_path(), SCENARIO_MANIFEST_PATH);
    assert_eq!(error.underlying().kind(), std::io::ErrorKind::NotFound);
    assert_eq!(
        error.underlying().to_string(),
        "manifest file was not found".to_owned()
    );
    assert!(!rendered.contains("assets/scenarios"));
}

#[test]
fn nested_load_error_preserves_parse_cause_and_alternate_package() {
    let root = ScenarioRoot::try_for_package_key("test_campaign-2").unwrap();
    let dialogue_path = ScenarioRelativePath::try_from("data/dialogue/opening.yaml").unwrap();
    let error = root.load_error(
        &dialogue_path,
        ParseError {
            message: "expected a mapping at line 4",
        },
    );

    assert_eq!(
        error.describe(error.underlying().message),
        "test_campaign-2:data/dialogue/opening.yaml: expected a mapping at line 4"
    );
    assert_eq!(error.package_key(), "test_campaign-2");
    assert_eq!(error.scenario_relative_path(), "data/dialogue/opening.yaml");
    assert_eq!(
        error.underlying(),
        &ParseError {
            message: "expected a mapping at line 4"
        }
    );
    assert_eq!(
        error.into_underlying(),
        ParseError {
            message: "expected a mapping at line 4"
        }
    );
}

fn lines(values: &[&str]) -> Vec<String> {
    values.iter().map(|value| (*value).to_owned()).collect()
}

#[test]
fn a_report_matching_the_baseline_exactly_is_clean() {
    let comparison = compare_to_baseline(
        &lines(&["error a [x] one", "warning b [y] two"]),
        &lines(&["error a [x] one", "warning b [y] two"]),
    );

    assert!(comparison.is_clean());
    assert_eq!(comparison.matched, 2);
}

#[test]
fn a_diagnostic_missing_from_the_baseline_is_reported_as_unexpected() {
    let comparison = compare_to_baseline(
        &lines(&["error a [x] one", "error c [z] three"]),
        &lines(&["error a [x] one"]),
    );

    assert!(!comparison.is_clean());
    assert_eq!(comparison.unexpected, lines(&["error c [z] three"]));
    assert!(comparison.resolved.is_empty());
    assert_eq!(comparison.matched, 1);
}

#[test]
fn a_baseline_entry_the_report_no_longer_produces_is_reported_as_resolved() {
    let comparison = compare_to_baseline(
        &lines(&["error a [x] one"]),
        &lines(&["error a [x] one", "error c [z] three"]),
    );

    assert!(!comparison.is_clean());
    assert!(comparison.unexpected.is_empty());
    assert_eq!(comparison.resolved, lines(&["error c [z] three"]));
}

#[test]
fn identical_diagnostics_are_matched_one_baseline_line_each() {
    let twice = lines(&["error a [x] one", "error a [x] one"]);

    let under = compare_to_baseline(&twice, &lines(&["error a [x] one"]));
    assert_eq!(under.unexpected, lines(&["error a [x] one"]));
    assert_eq!(under.matched, 1);

    let over = compare_to_baseline(&lines(&["error a [x] one"]), &twice);
    assert_eq!(over.resolved, lines(&["error a [x] one"]));
}

#[test]
fn unexpected_and_resolved_entries_are_sorted_for_stable_ci_output() {
    let comparison = compare_to_baseline(
        &lines(&["error z [x] last", "error b [x] first"]),
        &lines(&["error y [x] gone", "error a [x] also gone"]),
    );

    assert_eq!(
        comparison.unexpected,
        lines(&["error b [x] first", "error z [x] last"])
    );
    assert_eq!(
        comparison.resolved,
        lines(&["error a [x] also gone", "error y [x] gone"])
    );
}

#[test]
fn comments_and_blank_lines_are_not_accepted_diagnostics() {
    let parsed = parse_baseline(
        "# why these are accepted\n\
         \n\
         error a [x] one\n\
         \x20  error b [y] two  \n\
         # trailing note\n",
    );

    assert_eq!(parsed, lines(&["error a [x] one", "error b [y] two"]));
}

#[test]
fn an_empty_baseline_demands_a_clean_report() {
    assert!(compare_to_baseline(&[], &[]).is_clean());
    assert_eq!(
        compare_to_baseline(&lines(&["error a [x] one"]), &[]).unexpected,
        lines(&["error a [x] one"])
    );
}

#[test]
fn a_report_in_another_order_is_still_clean() {
    let comparison = compare_to_baseline(
        &lines(&["b", "a", "b"]),
        &lines(&["b", "b", "a"]),
    );
    assert!(comparison.is_clean());
    assert_eq!(comparison.matched, 3);
}

#[test]
fn windows_line_endings_and_a_missing_final_newline_are_trimmed() {
    assert_eq!(
        parse_baseline("error a\r\n\t# note\r\nerror b"),
        lines(&["error a", "error b"])
    );
    assert!(parse_baseline("").is_empty());
    assert!(parse_baseline("\n\n   \n").is_empty());
}

#[test]
fn sorting_puts_a_prefix_before_its_extensions() {
    let comparison = compare_to_baseline(&lines(&["ab", "a", "B"]), &[]);
    assert_eq!(comparison.unexpected, lines(&["B", "a", "ab"]));
}

#[test]
fn exposes_the_python_no_injected_balance_fallbacks_explicitly() {
    let balance = BalanceData::default();
    assert_eq!(balance.progression.level_cap.get(), 100);
    assert_eq!(balance.progression.exp_cap.get(), 1_000_000);
    assert_eq!(balance.economy.gp_cap.get(), 8_000_000);
    assert_eq!(balance.economy.item_qty_cap.get(), 100);
    assert_eq!(balance.economy.max_tags_per_item, 5);
    // Fractions are held in per-myriad units: 0.30, 0.02 and 0.5.
    assert_eq!(balance.battle.flee_base_chance.get(), 3_000);
    assert_eq!(balance.battle.flee_rogue_dex_bonus.get(), 200);
    assert_eq!(balance.spawner.rogue_chase_reduction, 2);
    assert_eq!(balance.spawner.stealth_cloak_reduction, 3);
    assert_eq!(balance.spawner.lure_charm_interval_mult.get(), 5_000);
    assert_eq!(balance.movement.player_speed.get(), 5);
}

#[test]
fn every_namespace_has_its_own_name() {
    let all = [
        CatalogNamespace::Party,
        CatalogNamespace::Classes,
        CatalogNamespace::Abilities,
        CatalogNamespace::Items,
        CatalogNamespace::FieldUseItems,
        CatalogNamespace::Maps,
        CatalogNamespace::Npcs,
        CatalogNamespace::ItemBoxes,
        CatalogNamespace::Dialogue,
        CatalogNamespace::Enemies,
        CatalogNamespace::BossMoveSets,
        CatalogNamespace::Encounters,
        CatalogNamespace::BattleBackgrounds,
        CatalogNamespace::Recipes,
        CatalogNamespace::Quests,
        CatalogNamespace::Bgm,
        CatalogNamespace::Sfx,
    ];
    let names: HashSet<&str> = all.iter().map(|n| n.as_str()).collect();
    assert_eq!(names.len(), all.len());
    assert_eq!(CatalogNamespace::Items.as_str(), "items");
    assert_eq!(CatalogNamespace::ItemBoxes.as_str(), "item_boxes");
    assert_eq!(CatalogNamespace::BattleBackgrounds.as_str(), "battle_backgrounds");
}

#[test]
fn baseline_comparison_ignores_input_order() {
    let reported = vec!["b".to_owned(), "a".to_owned(), "c".to_owned(), "a".to_owned()];
    let baseline = vec!["d".to_owned(), "a".to_owned()];
    let reported_shuffled = vec!["a".to_owned(), "c".to_owned(), "a".to_owned(), "b".to_owned()];
    let baseline_shuffled = vec!["a".to_owned(), "d".to_owned()];
    let first = compare_to_baseline(&reported, &baseline);
    let second = compare_to_baseline(&reported_shuffled, &baseline_shuffled);
    assert_eq!(first, second);
    assert_eq!(first.unexpected, vec!["a".to_owned(), "b".to_owned(), "c".to_owned()]);
    assert_eq!(first.resolved, vec!["d".to_owned()]);
    assert_eq!(first.matched, 1);
}

#[test]
fn reordered_or_repeated_conditions_answer_alike() {
    let set = ["quest_started", "key_found"];
    let lookup = |flag: &str| set.contains(&flag);
    let plain = FlagConditions {
        requires: vec!["quest_started".to_owned(), "key_found".to_owned()],
        excludes: vec!["quest_done".to_owned()],
    };
    let shuffled = FlagConditions {
        requires: vec!["key_found".to_owned(), "quest_started".to_owned(), "key_found".to_owned()],
        excludes: vec!["quest_done".to_owned(), "quest_done".to_owned()],
    };
    assert!(plain.is_satisfied_by(lookup));
    assert!(shuffled.is_satisfied_by(lookup));
    let blocked = FlagConditions {
        requires: vec!["key_found".to_owned()],
        excludes: vec!["quest_started".to_owned(), "quest_started".to_owned()],
    };
    assert!(!blocked.is_satisfied_by(lookup));
}
