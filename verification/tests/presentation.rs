use rpg_s1::action_input::{
    menu_stick_edge, movement_stick_held, ActionState, AppAction, EightWayDirection,
    MovementAction, NormalizedAction, StickDirection, StickNavigation,
};
use rpg_s1::app_state::{next_app_state, AppState, AppStateTransitionRequest};
use rpg_s1::battle::action::{BattleAction, BattleEvent};
use rpg_s1::battle::badge::{badge_for, badges, StatusBadge, MAX_BADGES};
use rpg_s1::battle::fx::{
    attack_for_event, cue_for_event, sfx_cues_for_event, status_cue, triggers_screen_flash,
    AttackKind, FxColor, SfxCue,
};
use rpg_s1::battle::model::CombatantKey;
use rpg_s1::battle::status::{ActiveStatus, StatusEffect, StatusPotency};
use rpg_s1::credits::{ending_title, GAME_COMPLETE_FLAG};
use rpg_s1::scenario_class::AbilityElement;
use rpg_s1::scenario_item::ItemElement;

fn badge(label: &'static str, fill: (u8, u8, u8), ink: (u8, u8, u8)) -> StatusBadge {
    StatusBadge { label, fill, ink }
}

const BOON: ((u8, u8, u8), (u8, u8, u8)) = ((40, 110, 110), (170, 230, 230));

#[test]
fn every_tracked_effect_earns_a_badge() {
    for effect in [
        StatusEffect::Poison,
        StatusEffect::Sleep,
        StatusEffect::Stun,
        StatusEffect::Silence,
        StatusEffect::Burn,
        StatusEffect::Freeze,
        StatusEffect::Knockback,
        StatusEffect::Taunt,
        StatusEffect::AttackModifier,
        StatusEffect::DefenseModifier,
        StatusEffect::MagicResistanceModifier,
        StatusEffect::HitChanceModifier,
        StatusEffect::DamageReduction,
        StatusEffect::RedirectDamage,
    ] {
        assert!(badge_for(ActiveStatus::persistent(effect)).is_some(), "{effect:?} has no badge");
    }
}

#[test]
fn the_source_palette_is_reproduced_exactly() {
    for (effect, label, fill, ink) in [
        (StatusEffect::Poison, "PSN", (51, 102, 51), (170, 255, 170)),
        (StatusEffect::Sleep, "zzz", (68, 68, 170), (204, 204, 255)),
        (StatusEffect::Stun, "STN", (120, 90, 20), (255, 220, 100)),
        (StatusEffect::Silence, "SIL", (100, 60, 100), (220, 180, 220)),
        (StatusEffect::Burn, "BRN", (140, 40, 40), (255, 170, 120)),
        (StatusEffect::Freeze, "FRZ", (40, 80, 140), (180, 220, 255)),
        (StatusEffect::Knockback, "KBK", (90, 90, 120), (210, 210, 230)),
        (StatusEffect::Taunt, "TNT", (150, 60, 30), (255, 180, 100)),
    ] {
        assert_eq!(
            badge_for(ActiveStatus::persistent(effect)),
            Some(badge(label, fill, ink)),
            "{effect:?}"
        );
    }
    assert_eq!(
        badge_for(ActiveStatus::modifier(StatusEffect::DefenseModifier, 3, 12_500)),
        Some(badge("DEF+", BOON.0, BOON.1)),
        "a raised defense reads DEF+ in teal"
    );
}

#[test]
fn a_modifiers_potency_decides_which_way_its_badge_reads() {
    let raised = badge_for(ActiveStatus::modifier(StatusEffect::AttackModifier, 3, 15_000))
        .expect("attack modifier badges");
    let lowered = badge_for(ActiveStatus::modifier(StatusEffect::AttackModifier, 3, 5_000))
        .expect("attack modifier badges");
    assert_eq!(raised.label, "ATK+");
    assert_eq!(lowered.label, "ATK-");
    assert_ne!(raised.fill, lowered.fill);
    assert_eq!(
        badge_for(ActiveStatus::reduction(2, 3_000)),
        Some(badge("GRD", BOON.0, BOON.1))
    );
    assert_eq!(
        badge_for(ActiveStatus::modifier(StatusEffect::HitChanceModifier, 1, 10_000))
            .unwrap()
            .label,
        "HIT+"
    );
}

#[test]
fn badges_keep_application_order_and_stop_at_the_cap() {
    let statuses = [
        ActiveStatus::persistent(StatusEffect::Poison),
        ActiveStatus::persistent(StatusEffect::Silence),
        ActiveStatus::persistent(StatusEffect::Burn),
        ActiveStatus::persistent(StatusEffect::Freeze),
    ];
    let drawn = badges(&statuses);
    assert_eq!(drawn.len(), MAX_BADGES);
    assert_eq!(
        drawn.iter().map(|badge| badge.label).collect::<Vec<_>>(),
        vec!["PSN", "SIL", "BRN"],
    );
    assert!(badges(&[]).is_empty());
}

fn pressed(actions: &[NormalizedAction]) -> ActionState {
    let mut state = ActionState::new();
    state.replace_with_normalized(actions);
    state
}

#[test]
fn simultaneous_opposite_navigation_prefers_up_and_left() {
    let state = pressed(&[NormalizedAction::MenuDown, NormalizedAction::MenuUp]);
    assert_eq!(state.menu_navigation(), Some(-1));
    let state = pressed(&[NormalizedAction::MenuRight, NormalizedAction::MenuLeft]);
    assert_eq!(state.menu_navigation_horizontal(), Some(-1));
    let state = pressed(&[NormalizedAction::MenuDown]);
    assert_eq!(state.menu_navigation(), Some(1));
    assert_eq!(state.menu_navigation_horizontal(), None);
    assert_eq!(ActionState::new().menu_navigation(), None);
}

#[test]
fn held_movement_sums_directions_and_opposites_cancel() {
    for (held, expected) in [
        (vec![NormalizedAction::MoveUp], Some(EightWayDirection::Up)),
        (vec![NormalizedAction::MoveUp, NormalizedAction::MoveRight], Some(EightWayDirection::UpRight)),
        (vec![NormalizedAction::MoveRight], Some(EightWayDirection::Right)),
        (vec![NormalizedAction::MoveDown, NormalizedAction::MoveRight], Some(EightWayDirection::DownRight)),
        (vec![NormalizedAction::MoveDown], Some(EightWayDirection::Down)),
        (vec![NormalizedAction::MoveDown, NormalizedAction::MoveLeft], Some(EightWayDirection::DownLeft)),
        (vec![NormalizedAction::MoveLeft], Some(EightWayDirection::Left)),
        (vec![NormalizedAction::MoveUp, NormalizedAction::MoveLeft], Some(EightWayDirection::UpLeft)),
        (vec![NormalizedAction::MoveUp, NormalizedAction::MoveDown], None),
        (vec![NormalizedAction::MoveUp, NormalizedAction::MoveDown, NormalizedAction::MoveLeft], Some(EightWayDirection::Left)),
        (vec![], None),
    ] {
        assert_eq!(pressed(&held).movement(), expected, "{held:?}");
    }
}

#[test]
fn recorded_actions_are_ordered_unique_and_replay_exactly() {
    let state = pressed(&[NormalizedAction::MoveRight, NormalizedAction::Confirm, NormalizedAction::MenuUp, NormalizedAction::Confirm, NormalizedAction::Back]);
    assert_eq!(state.normalized_actions(), vec![NormalizedAction::Back, NormalizedAction::Confirm, NormalizedAction::MenuUp, NormalizedAction::MoveRight]);
    let replayed = pressed(&state.normalized_actions());
    assert_eq!(replayed, state);
    assert!(ActionState::new().normalized_actions().is_empty());
}

#[test]
fn a_held_stick_produces_one_menu_edge() {
    let mut navigation = StickNavigation::new();
    let down = StickDirection { horizontal: 0, vertical: 1 };
    assert_eq!(navigation.advance(down), down);
    assert_eq!(navigation.advance(down), StickDirection::default());
    let up = StickDirection { horizontal: 0, vertical: -1 };
    assert_eq!(navigation.advance(up), up, "reversing is a new edge");
    let diagonal = StickDirection { horizontal: 1, vertical: -1 };
    assert_eq!(
        navigation.advance(diagonal),
        StickDirection { horizontal: 1, vertical: 0 },
        "only the axis that changed edges"
    );
    assert_eq!(navigation.advance(StickDirection::default()), StickDirection::default());
}

#[test]
fn menu_stick_edges_reach_only_the_directional_actions() {
    let up = StickDirection { horizontal: -1, vertical: -1 };
    assert!(menu_stick_edge(AppAction::Up, up));
    assert!(menu_stick_edge(AppAction::Left, up));
    assert!(!menu_stick_edge(AppAction::Down, up));
    for action in [AppAction::Back, AppAction::Confirm, AppAction::Travel] {
        assert!(!menu_stick_edge(action, up));
    }
    assert!(movement_stick_held(MovementAction::Up, up));
    assert!(!movement_stick_held(MovementAction::Right, up));
    let mut state = ActionState::new();
    for action in AppAction::all() {
        state.set_began(action, action == AppAction::Confirm, up);
    }
    for action in MovementAction::all() {
        state.set_held(action, false, up);
    }
    assert!(state.just_pressed(AppAction::Confirm));
    assert!(state.just_pressed(AppAction::Up));
    assert!(!state.just_pressed(AppAction::Back));
    assert_eq!(state.movement(), Some(EightWayDirection::UpLeft));
}

#[test]
fn last_same_frame_transition_request_wins() {
    let requests = [
        AppStateTransitionRequest::new(AppState::World),
        AppStateTransitionRequest::new(AppState::Battle),
    ];
    assert_eq!(next_app_state(AppState::Title, &requests), AppState::Battle);
    assert_eq!(next_app_state(AppState::Title, &[]), AppState::Title);
    assert_eq!(
        next_app_state(AppState::Title, &[AppStateTransitionRequest::new(AppState::NameEntry)]),
        AppState::NameEntry
    );
}

#[test]
fn app_state_contract_has_all_top_level_states() {
    let states = [
        AppState::Boot,
        AppState::Title,
        AppState::NameEntry,
        AppState::Dialogue,
        AppState::World,
        AppState::Battle,
        AppState::FieldMenu,
        AppState::PostBattle,
        AppState::GameOver,
        AppState::Credits,
    ];
    assert_eq!(
        states.map(|state| format!("{state:?}")).join(","),
        "Boot,Title,NameEntry,Dialogue,World,Battle,FieldMenu,PostBattle,GameOver,Credits"
    );
}

fn flags(set: &'static [&'static str]) -> impl Fn(&str) -> bool {
    move |name| set.contains(&name)
}

#[test]
fn ending_titles_follow_the_recorded_precedence() {
    assert_eq!(ending_title(&flags(&["ending_path_rekindle"])), "THE REKINDLING");
    assert_eq!(ending_title(&flags(&["ending_path_release"])), "THE RELEASE");
    assert_eq!(ending_title(&flags(&["ending_path_third"])), "THE THIRD FIRE");
    assert_eq!(ending_title(&flags(&[])), "THE END");
    assert_eq!(
        ending_title(&flags(&["ending_path_rekindle", "ending_path_third"])),
        "THE THIRD FIRE"
    );
    assert_eq!(GAME_COMPLETE_FLAG, "game_complete");
}

fn party(index: usize) -> CombatantKey {
    CombatantKey::party(index)
}

fn enemy(index: usize) -> CombatantKey {
    CombatantKey::enemy(index)
}

#[test]
fn every_battle_event_routes_to_its_authored_sfx_cues() {
    let hit_enemy = BattleAction::Physical { attacker: party(0), target: enemy(0) };
    let hit_party = BattleAction::Physical { attacker: enemy(0), target: party(0) };
    assert!(sfx_cues_for_event(&BattleEvent::Miss { action: hit_enemy }).is_empty());
    assert_eq!(
        sfx_cues_for_event(&BattleEvent::Damage {
            action: hit_enemy,
            amount: 5,
            critical: false,
            knocked_out: false
        }),
        vec![SfxCue::AtkSlash]
    );
    assert_eq!(
        sfx_cues_for_event(&BattleEvent::Damage {
            action: hit_party,
            amount: 5,
            critical: false,
            knocked_out: true
        }),
        vec![SfxCue::AtkImpact, SfxCue::PartyHit]
    );
    assert_eq!(
        sfx_cues_for_event(&BattleEvent::Damage {
            action: hit_enemy,
            amount: 5,
            critical: true,
            knocked_out: true
        }),
        vec![SfxCue::AtkSlash, SfxCue::EnemyDeath]
    );
    for (element, cues) in [
        (AbilityElement::Fire, vec![SfxCue::SpellFire]),
        (AbilityElement::Water, vec![SfxCue::SpellWater]),
        (AbilityElement::Wind, vec![SfxCue::SpellWind]),
        (AbilityElement::Earth, vec![SfxCue::SpellEarth]),
        (AbilityElement::Holy, vec![]),
    ] {
        assert_eq!(
            sfx_cues_for_event(&BattleEvent::MagicDamage {
                source: party(0),
                target: enemy(1),
                element,
                amount: 3,
                knocked_out: false
            }),
            cues,
            "element {element:?}"
        );
    }
    assert_eq!(
        sfx_cues_for_event(&BattleEvent::ItemDamage {
            source: party(0),
            target: enemy(0),
            element: ItemElement::Fire,
            amount: 9,
            knocked_out: true
        }),
        vec![SfxCue::UseItem, SfxCue::SpellFire, SfxCue::EnemyDeath]
    );
    assert_eq!(
        sfx_cues_for_event(&BattleEvent::EnemyAbilityBlocked { source: enemy(0), target: party(0) }),
        vec![SfxCue::Defend]
    );
    assert_eq!(
        sfx_cues_for_event(&BattleEvent::Heal {
            source: party(0),
            target: party(1),
            amount: 4,
            revived: false
        }),
        vec![SfxCue::Heal]
    );
    assert_eq!(
        sfx_cues_for_event(&BattleEvent::Heal {
            source: party(0),
            target: party(1),
            amount: 4,
            revived: true
        }),
        vec![SfxCue::Revive]
    );
    assert_eq!(
        sfx_cues_for_event(&BattleEvent::StatusDamage {
            target: party(0),
            effect: StatusEffect::Poison,
            amount: 2,
            knocked_out: false
        }),
        vec![SfxCue::AtkImpact, SfxCue::PartyHit]
    );
}

#[test]
fn status_cues_read_the_potency() {
    assert_eq!(
        status_cue(StatusEffect::AttackModifier, StatusPotency::Multiplier(15_000)),
        SfxCue::AtkBuff
    );
    assert_eq!(
        status_cue(StatusEffect::AttackModifier, StatusPotency::Multiplier(5_000)),
        SfxCue::Debuff
    );
    assert_eq!(
        status_cue(StatusEffect::DefenseModifier, StatusPotency::Multiplier(12_500)),
        SfxCue::DefBuff
    );
    assert_eq!(
        status_cue(StatusEffect::DamageReduction, StatusPotency::Reduction(3_000)),
        SfxCue::DefBuff
    );
    assert_eq!(status_cue(StatusEffect::Sleep, StatusPotency::Inert), SfxCue::Debuff);
}

#[test]
fn damage_miss_critical_and_status_events_route_to_distinct_labels() {
    let action = BattleAction::Physical { attacker: party(0), target: enemy(0) };
    let miss = cue_for_event(&BattleEvent::Miss { action }).unwrap();
    assert_eq!((miss.target, miss.label.as_str(), miss.color, miss.flash), (enemy(0), "MISS", FxColor::Miss, false));
    let critical = cue_for_event(&BattleEvent::Damage {
        action,
        amount: 15,
        critical: true,
        knocked_out: false,
    })
    .unwrap();
    assert_eq!(critical.label, "CRIT 15");
    assert_eq!(critical.color, FxColor::Critical);
    assert!(critical.flash);
    let status = cue_for_event(&BattleEvent::StatusDamage {
        target: party(1),
        effect: StatusEffect::Poison,
        amount: 3,
        knocked_out: false,
    })
    .unwrap();
    assert_eq!(status.label, "3");
    assert!(triggers_screen_flash(&status));
    assert!(!triggers_screen_flash(&critical));
    let applied = cue_for_event(&BattleEvent::StatusApplied {
        source: enemy(0),
        target: party(0),
        status: ActiveStatus::persistent(StatusEffect::AttackModifier),
    })
    .unwrap();
    assert_eq!(applied.label, "ATTACKMODIFIER");
    let mana = cue_for_event(&BattleEvent::ManaRestored { source: party(0), target: party(0), amount: 7 })
        .unwrap();
    assert_eq!(mana.label, "+7 MP");
    let heal = cue_for_event(&BattleEvent::Heal { source: party(0), target: party(0), amount: 7, revived: false })
        .unwrap();
    assert_eq!(heal.label, "+7");
}

#[test]
fn a_basic_attack_thrusts_and_everything_else_casts() {
    let action = BattleAction::Physical { attacker: enemy(2), target: party(0) };
    assert_eq!(
        attack_for_event(&BattleEvent::Miss { action }),
        Some((enemy(2), AttackKind::Thrust))
    );
    assert_eq!(
        attack_for_event(&BattleEvent::EnemyAbilityBlocked { source: enemy(1), target: party(0) }),
        Some((enemy(1), AttackKind::Spellcast))
    );
    assert_eq!(
        attack_for_event(&BattleEvent::StatusDamage {
            target: party(0),
            effect: StatusEffect::Burn,
            amount: 1,
            knocked_out: false
        }),
        None
    );
}
