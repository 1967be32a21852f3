use rpg_s1::action_input::{ActionState, NormalizedAction};
use rpg_s1::battle::ability::{elemental_damage, resolve_ability, ElementalAffinity};
use rpg_s1::battle::input::{handle_battle_input, BattleInputOutcome, MenuSound};
use rpg_s1::battle::panel::{command_panel, meter_label, target_caption, MeterKind, RowTone};
use rpg_s1::battle::action::{BattleAction, BattleEvent};
use rpg_s1::battle::item::{resolve_item as resolve_battle_item, ItemUseError};
use rpg_s1::battle::model::{
    BattleCombatant, BattleItemChoice, BattlePhase, BattleSide, BattleState, CombatantKey, FleeOutcome, PartyRow,
    TargetGroup, TargetSelector,
};
use rpg_s1::battle::rewards::calculate_rewards;
use rpg_s1::battle::rules::{
    calculate_turn_order, critical_damage, critical_hit_chance, flee_chance,
    phase_after_flee_confirmation, physical_damage, physical_hit_chance, roll_flee, roll_succeeds,
};
use rpg_s1::battle::status::{ActiveStatus, StatusEffect};
use rpg_s1::gameplay_rng::GameplayRng;
use rpg_s1::runtime_repository::RuntimeRepository;
use rpg_s1::scenario_balance::{BalanceData, PositiveInteger};
use rpg_s1::scenario_class::{
    Ability, AbilityElement, AbilityKind, AbilityTarget, PositiveFinite, SpellAbility,
};
use rpg_s1::scenario_enemy::{EnemyDrops, EnemyLootEntry, EnemyLootPool, MagicCoreDrop};
use rpg_s1::scenario_item::{ConsumableEffect, ConsumableItem, ItemUseContext, RestoreHpEffect, RestoreMpEffect};
use rpg_s1::scenario_recipe::MagicCoreSize;

fn actor(side: BattleSide, index: usize, dex: i64, health: u32) -> BattleCombatant {
    BattleCombatant {
        key: CombatantKey { side, index },
        id: format!("{side:?}-{index}"),
        name: format!("{side:?} {index}"),
        class_id: String::new(),
        health,
        max_health: health.max(1),
        mana: 0,
        max_mana: 0,
        attack: 10,
        defense: 3,
        magic_resistance: 2,
        dexterity: dex,
        abilities: Vec::new(),
        status_effects: Vec::new(),
        accessory: None,
        row: PartyRow::Front,
        boss: false,
        enemy_type: None,
        immunities: Vec::new(),
        behavior: None,
        experience_yield: 0,
        drops: None,
    }
}

fn state_with(combatants: Vec<BattleCombatant>) -> BattleState {
    BattleState {
        phase: BattlePhase::Command,
        turn_order: calculate_turn_order(&combatants),
        combatants,
        active_turn: 0,
        turn_count: 1,
        command_index: 0,
        ability_index: 0,
        pending_ability: None,
        item_index: 0,
        item_choices: Vec::new(),
        pending_item: None,
        target: None,
        message: String::new(),
        transcript: Vec::new(),
        feedback_events: Vec::new(),
        used_enemy_moves: Vec::new(),
        rewards: None,
        flee_outcome: None,
    }
}

/// The sorcerer's opening spell: a single-target fire bolt at coefficient 1.0 for 4 mana.
fn fire_bolt() -> Ability {
    Ability {
        id: "fire_bolt".to_owned(),
        name: "Fire Bolt".to_owned(),
        mp_cost: 4,
        kind: AbilityKind::Spell(SpellAbility {
            target: AbilityTarget::SingleEnemy,
            spell_coeff: PositiveFinite::new(10_000).unwrap(),
            element: AbilityElement::Fire,
            side_effects: Vec::new(),
        }),
    }
}

fn recovery(id: &str, effect: ConsumableEffect) -> ConsumableItem {
    ConsumableItem {
        id: id.to_owned(),
        name: id.to_owned(),
        use_context: vec![ItemUseContext::Battle],
        effect,
        buy_price: None,
        sell_price: 0,
        description: String::new(),
    }
}

fn potion() -> ConsumableItem {
    recovery(
        "potion",
        ConsumableEffect::RestoreHp(RestoreHpEffect { restore_hp: PositiveInteger::new(100).unwrap() }),
    )
}

#[test]
fn phase_graph_names_and_bounds_every_minimum_loop_transition() {
    assert!(BattlePhase::Start.allows(BattlePhase::Command));
    assert!(BattlePhase::Command.allows(BattlePhase::Ability));
    assert!(BattlePhase::Ability.allows(BattlePhase::Target));
    assert!(BattlePhase::Target.allows(BattlePhase::Ability));
    assert!(BattlePhase::Command.allows(BattlePhase::Item));
    assert!(BattlePhase::Item.allows(BattlePhase::Target));
    assert!(BattlePhase::Target.allows(BattlePhase::Item));
    assert!(BattlePhase::Command.allows(BattlePhase::Target));
    assert!(BattlePhase::Target.allows(BattlePhase::Resolve));
    assert!(BattlePhase::Resolve.allows(BattlePhase::Advance));
    assert!(BattlePhase::Advance.allows(BattlePhase::Command));
    assert!(BattlePhase::Resolve.allows(BattlePhase::Victory));
    assert!(BattlePhase::Victory.allows(BattlePhase::Rewards));
    assert!(BattlePhase::Resolve.allows(BattlePhase::Defeat));
    assert!(BattlePhase::Command.allows(BattlePhase::Flee));
    assert!(BattlePhase::Flee.allows(BattlePhase::Advance));
    assert!(!BattlePhase::Victory.allows(BattlePhase::Command));
    assert!(!BattlePhase::Rewards.allows(BattlePhase::Command));
    assert!(!BattlePhase::Defeat.allows(BattlePhase::Advance));
}

#[test]
fn elemental_affinity_scales_weak_neutral_and_resistant_damage() {
    assert_eq!(elemental_damage(11, ElementalAffinity::Weak), 16);
    assert_eq!(elemental_damage(11, ElementalAffinity::Neutral), 11);
    assert_eq!(elemental_damage(11, ElementalAffinity::Resistant), 5);
    assert_eq!(elemental_damage(1, ElementalAffinity::Resistant), 1);
}

fn full_battle_parity_transcript() -> Vec<String> {
    let mut attacker = actor(BattleSide::Party, 0, 10, 100);
    attacker.attack = 20;
    let mut defender = actor(BattleSide::Enemy, 0, 5, 100);
    defender.defense = 5;
    let front = physical_damage(&attacker, &defender);
    attacker.row = PartyRow::Back;
    let back_attack = physical_damage(&attacker, &defender);
    attacker.row = PartyRow::Front;
    defender.key = CombatantKey::party(1);
    defender.row = PartyRow::Back;
    let back_defend = physical_damage(&attacker, &defender);
    attacker.row = PartyRow::Back;
    let both = physical_damage(&attacker, &defender);

    let mut caster = actor(BattleSide::Party, 0, 10, 100);
    caster.id = "mage".to_owned();
    caster.magic_resistance = 15;
    caster.mana = 30;
    caster.max_mana = 30;
    caster.abilities = vec![fire_bolt()];
    let mut spell_target = actor(BattleSide::Enemy, 0, 5, 50);
    spell_target.magic_resistance = 3;
    let mut spell_state = state_with(vec![caster, spell_target]);
    resolve_ability(
        &mut spell_state,
        CombatantKey::party(0),
        0,
        &[CombatantKey::enemy(0)],
        &mut GameplayRng::from_seed(2),
    )
    .unwrap();
    let spell_damage = 50 - spell_state.actor(CombatantKey::enemy(0)).unwrap().health;
    let spell_mana = spell_state.actor(CombatantKey::party(0)).unwrap().mana;

    let balance = BalanceData::default();
    let mut repository = RuntimeRepository::from_balance(&balance.economy);
    let _ = repository.add_item("potion", 5).unwrap();
    let source = actor(BattleSide::Party, 0, 10, 100);
    let mut item_target = actor(BattleSide::Party, 1, 9, 200);
    item_target.health = 50;
    let mut item_state = state_with(vec![source, item_target]);
    resolve_battle_item(
        &mut item_state,
        CombatantKey::party(0),
        &potion(),
        CombatantKey::party(1),
        &mut repository,
    )
    .unwrap();

    let mut status_target = actor(BattleSide::Party, 0, 10, 7);
    status_target.add_status(ActiveStatus::damage_over_time(StatusEffect::Burn, Some(1), 4));
    let status_tick = status_target.tick_statuses();

    let boss_flee = roll_flee(true, 10_000, &mut GameplayRng::from_seed(1));

    let mut first = actor(BattleSide::Party, 0, 10, 50);
    first.id = "a".to_owned();
    let mut second = actor(BattleSide::Party, 1, 9, 50);
    second.id = "b".to_owned();
    let mut ko = actor(BattleSide::Party, 2, 8, 50);
    ko.id = "ko".to_owned();
    ko.health = 0;
    let mut enemy = actor(BattleSide::Enemy, 0, 1, 1);
    enemy.health = 0;
    enemy.experience_yield = 7;
    enemy.drops = Some(EnemyDrops {
        mc: vec![MagicCoreDrop { size: MagicCoreSize::XS, qty: PositiveInteger::new(2).unwrap() }],
        loot: vec![EnemyLootPool {
            pool: vec![EnemyLootEntry {
                item: "rat_tail".to_owned(),
                weight: PositiveInteger::new(1).unwrap(),
            }],
        }],
    });
    let reward_state = state_with(vec![first, second, ko, enemy]);
    let rewards = calculate_rewards(&reward_state, &mut GameplayRng::from_seed(17));
    let mut awards = rewards
        .members
        .iter()
        .map(|member| member.experience_gained)
        .collect::<Vec<_>>();
    awards.sort_unstable();
    let loot = rewards
        .loot
        .iter()
        .map(|drop| format!("{}:{}", drop.item_id, drop.quantity))
        .collect::<Vec<_>>()
        .join(",");

    vec![
        format!(
            "PHYSICAL front={front} back_attack={back_attack} back_defend={back_defend} both={both}"
        ),
        format!("SPELL fire_bolt damage={spell_damage} mp={spell_mana}"),
        format!(
            "ITEM potion hp={} qty={}",
            item_state.actor(CombatantKey::party(1)).unwrap().health,
            repository.item_count("potion")
        ),
        format!(
            "STATUS burn damage={} hp={} active={}",
            status_tick.damage,
            status_target.health,
            status_target.has_status(StatusEffect::Burn)
        ),
        format!("BOSS flee={boss_flee:?}"),
        format!(
            "REWARD exp={} awards={} loot={loot}",
            rewards.total_experience,
            awards
                .iter()
                .map(u32::to_string)
                .collect::<Vec<_>>()
                .join(",")
        ),
    ]
}

#[test]
fn full_battle_parity_transcript_is_pinned_without_python_installed() {
    assert_eq!(
        full_battle_parity_transcript(),
        [
            "PHYSICAL front=15 back_attack=7 back_defend=7 both=3",
            "SPELL fire_bolt damage=12 mp=26",
            "ITEM potion hp=150 qty=4",
            "STATUS burn damage=4 hp=3 active=false",
            "BOSS flee=Blocked",
            "REWARD exp=7 awards=0,3,4 loot=mc_xs:2,rat_tail:1",
        ]
    );
}

#[test]
fn enemy_target_selection_handles_single_wrap_cancel_and_no_target() {
    let actors = vec![
        actor(BattleSide::Party, 0, 4, 10),
        actor(BattleSide::Enemy, 0, 4, 0),
        actor(BattleSide::Enemy, 1, 4, 10),
        actor(BattleSide::Enemy, 2, 4, 10),
    ];
    let mut selector = TargetSelector::new(TargetGroup::Enemy, &actors, false).unwrap();
    assert_eq!(selector.selected(), CombatantKey::enemy(1));
    selector.navigate(-1);
    assert_eq!(selector.selected(), CombatantKey::enemy(2));
    selector.navigate(1);
    assert_eq!(selector.selected(), CombatantKey::enemy(1));
    assert!(TargetSelector::new(TargetGroup::Enemy, &actors[..2], false).is_none());

    let one = vec![actor(BattleSide::Enemy, 0, 1, 1)];
    let mut single = TargetSelector::new(TargetGroup::Enemy, &one, false).unwrap();
    single.navigate(1);
    assert_eq!(single.selected(), CombatantKey::enemy(0));
}

#[test]
fn ally_targeting_distinguishes_living_and_ko_eligibility() {
    let actors = vec![
        actor(BattleSide::Party, 0, 3, 10),
        actor(BattleSide::Party, 1, 2, 0),
        actor(BattleSide::Enemy, 0, 1, 10),
    ];
    assert_eq!(
        TargetSelector::new(TargetGroup::Ally, &actors, false)
            .unwrap()
            .selected(),
        CombatantKey::party(0)
    );
    assert_eq!(
        TargetSelector::new(TargetGroup::Ally, &actors, true)
            .unwrap()
            .selected(),
        CombatantKey::party(1)
    );
}

#[test]
fn turn_order_uses_dexterity_then_party_then_authored_order() {
    let actors = vec![
        actor(BattleSide::Enemy, 0, 8, 10),
        actor(BattleSide::Party, 0, 8, 10),
        actor(BattleSide::Party, 1, 12, 10),
        actor(BattleSide::Enemy, 1, 99, 0),
    ];
    assert_eq!(
        calculate_turn_order(&actors),
        vec![
            CombatantKey::party(1),
            CombatantKey::party(0),
            CombatantKey::enemy(0)
        ]
    );
}

#[test]
fn hit_chance_clamps_at_both_boundaries_and_seeded_rolls_repeat() {
    // Chances are per-myriad: 0.95, 0.05 and 0.70.
    assert_eq!(physical_hit_chance(100, 1), 9_500);
    assert_eq!(physical_hit_chance(1, 100), 500);
    assert_eq!(physical_hit_chance(20, 20), 7_000);
    let mut left = GameplayRng::from_seed(77);
    let mut right = GameplayRng::from_seed(77);
    let left = (0..16)
        .map(|_| roll_succeeds(&mut left, 7_000))
        .collect::<Vec<_>>();
    let right = (0..16)
        .map(|_| roll_succeeds(&mut right, 7_000))
        .collect::<Vec<_>>();
    assert_eq!(left, right);
}

#[test]
fn flee_rate_uses_rogue_dex_caps_and_boss_or_failure_cost_rules() {
    let balance = BalanceData::default();
    let plain = state_with(vec![
        actor(BattleSide::Party, 0, 8, 10),
        actor(BattleSide::Enemy, 0, 4, 10),
    ]);
    assert_eq!(flee_chance(&plain, &balance), 3_000);

    let mut rogue = actor(BattleSide::Party, 0, 35, 10);
    rogue.class_id = "rogue".to_owned();
    let guaranteed = state_with(vec![rogue, actor(BattleSide::Enemy, 0, 4, 10)]);
    assert_eq!(flee_chance(&guaranteed, &balance), 10_000);

    let mut rng = GameplayRng::from_seed(5);
    let before = rng.state();
    assert_eq!(roll_flee(false, 10_000, &mut rng), FleeOutcome::Success);
    assert_eq!(rng.state(), before, "guaranteed flee consumes no random roll");
    assert_eq!(roll_flee(true, 10_000, &mut rng), FleeOutcome::Blocked);
    assert_eq!(rng.state(), before, "boss restriction consumes no random roll");

    assert_eq!(
        phase_after_flee_confirmation(FleeOutcome::Failed),
        Some(BattlePhase::Advance)
    );
    assert_eq!(
        phase_after_flee_confirmation(FleeOutcome::Blocked),
        Some(BattlePhase::Advance)
    );
    assert_eq!(phase_after_flee_confirmation(FleeOutcome::Success), None);
}

#[test]
fn physical_damage_applies_attack_defense_rows_minimum_and_health_cap() {
    let mut front = actor(BattleSide::Party, 0, 1, 99);
    front.attack = 20;
    let mut enemy = actor(BattleSide::Enemy, 0, 1, 50);
    enemy.defense = 6;
    assert_eq!(physical_damage(&front, &enemy), 14);
    front.row = PartyRow::Back;
    assert_eq!(physical_damage(&front, &enemy), 7);
    enemy.health = 3;
    assert_eq!(physical_damage(&front, &enemy), 3);
    front.attack = 1;
    enemy.defense = 999;
    enemy.health = 50;
    assert_eq!(physical_damage(&front, &enemy), 1);
    let mut back_party = actor(BattleSide::Party, 1, 1, 50);
    back_party.row = PartyRow::Back;
    let enemy_attacker = actor(BattleSide::Enemy, 0, 1, 50);
    assert_eq!(physical_damage(&enemy_attacker, &back_party), 3);
}

#[test]
fn critical_chance_and_damage_match_the_source_formula_boundaries() {
    assert_eq!(critical_hit_chance(-1), 0);
    assert_eq!(critical_hit_chance(1), 200);
    assert_eq!(critical_hit_chance(10), 2_000);
    assert_eq!(critical_hit_chance(13), 2_500);
    assert_eq!(critical_hit_chance(100), 2_500);
    assert_eq!(critical_damage(1), 1);
    assert_eq!(critical_damage(7), 10);
    assert_eq!(critical_damage(20), 30);
}

#[test]
fn damage_clamps_to_zero_and_turn_advance_skips_ko_actors() {
    let mut target = actor(BattleSide::Party, 0, 1, 4);
    assert_eq!(target.apply_damage(99), 4);
    assert!(!target.is_alive());

    let mut state = state_with(vec![
        target,
        actor(BattleSide::Party, 1, 3, 10),
        actor(BattleSide::Enemy, 0, 2, 10),
    ]);
    state.phase = BattlePhase::Advance;
    state.turn_order = vec![
        CombatantKey::party(0),
        CombatantKey::party(1),
        CombatantKey::enemy(0),
    ];
    state.skip_knocked_out();
    assert_eq!(state.active_key(), Some(CombatantKey::party(1)));
}

#[test]
fn victory_and_defeat_require_every_member_of_one_side_to_be_ko() {
    let mut state = state_with(vec![
        actor(BattleSide::Party, 0, 2, 10),
        actor(BattleSide::Enemy, 0, 1, 0),
        actor(BattleSide::Enemy, 1, 1, 1),
    ]);
    state.phase = BattlePhase::Resolve;
    state.turn_order = vec![];
    state.assess_result();
    assert_eq!(state.phase, BattlePhase::Advance);
    state.combatants[2].health = 0;
    state.assess_result();
    assert_eq!(state.phase, BattlePhase::Victory);
    assert_eq!(state.transcript.last().map(String::as_str), Some("VICTORY"));
    state.combatants[0].health = 0;
    state.combatants[2].health = 1;
    state.assess_result();
    assert_eq!(state.phase, BattlePhase::Defeat);
    assert_eq!(state.message, "The party was defeated.");
}

#[test]
fn deterministic_basic_battle_transcript_is_stable() {
    fn replay(seed: u64) -> Vec<String> {
        let mut state = state_with(vec![
            actor(BattleSide::Party, 0, 8, 40),
            actor(BattleSide::Enemy, 0, 4, 16),
        ]);
        state.turn_order = vec![CombatantKey::party(0), CombatantKey::enemy(0)];
        state.transcript = vec!["START fixture".to_owned()];
        state.combatants[0].attack = 14;
        state.combatants[1].defense = 2;
        let mut rng = GameplayRng::from_seed(seed);
        while !state.all_defeated(BattleSide::Enemy) {
            if state.active_key() == Some(CombatantKey::party(0)) {
                state.resolve_physical(CombatantKey::party(0), CombatantKey::enemy(0), &mut rng);
            } else {
                state.resolve_enemy_action(&mut rng);
            }
            state.assess_result();
            if state.phase == BattlePhase::Advance {
                state.advance(&mut rng);
            }
        }
        state.transcript
    }
    let transcript = replay(9);
    assert_eq!(transcript, replay(9));
    assert_eq!(transcript.last().map(String::as_str), Some("VICTORY"));
}

#[test]
fn poison_reapplication_refreshes_damage_ticks_can_ko_and_cure_stops_future_ticks() {
    let mut target = actor(BattleSide::Party, 0, 10, 7);
    assert!(target.add_status(ActiveStatus::damage_over_time(StatusEffect::Poison, None, 2)));
    assert!(target.add_status(ActiveStatus::damage_over_time(StatusEffect::Poison, None, 4)));
    assert_eq!(target.status_effects.len(), 1);
    assert_eq!(target.tick_statuses().damage, 4);
    assert_eq!(target.health, 3);
    assert!(target.remove_status(StatusEffect::Poison));
    assert_eq!(target.tick_statuses().damage, 0);
    target.add_status(ActiveStatus::damage_over_time(StatusEffect::Poison, None, 4));
    assert_eq!(target.tick_statuses().damage, 3);
    assert!(!target.is_alive());
}

#[test]
fn battle_round_counter_increments_only_when_turn_order_wraps() {
    let party = actor(BattleSide::Party, 0, 10, 100);
    let enemy = actor(BattleSide::Enemy, 0, 5, 100);
    let mut state = state_with(vec![party, enemy]);
    let mut rng = GameplayRng::from_seed(1);
    assert_eq!(state.turn_count, 1);
    state.advance(&mut rng);
    assert_eq!(state.turn_count, 1);
    state.assess_result();
    state.advance(&mut rng);
    assert_eq!(state.turn_count, 2);
}

#[test]
fn rewards_split_all_exp_only_across_living_members_with_seeded_remainder() {
    let mut first = actor(BattleSide::Party, 0, 10, 100);
    first.id = "first".to_owned();
    let mut second = actor(BattleSide::Party, 1, 9, 100);
    second.id = "second".to_owned();
    let mut ko = actor(BattleSide::Party, 2, 8, 100);
    ko.id = "ko".to_owned();
    ko.health = 0;
    let mut enemy_a = actor(BattleSide::Enemy, 0, 2, 1);
    enemy_a.experience_yield = 4;
    enemy_a.health = 0;
    let mut enemy_b = actor(BattleSide::Enemy, 1, 1, 1);
    enemy_b.experience_yield = 3;
    enemy_b.health = 0;
    let state = state_with(vec![first, second, ko, enemy_a, enemy_b]);

    let rewards = calculate_rewards(&state, &mut GameplayRng::from_seed(17));
    assert_eq!(rewards.total_experience, 7);
    assert_eq!(
        rewards
            .members
            .iter()
            .map(|member| member.experience_gained)
            .sum::<u32>(),
        7
    );
    assert_eq!(
        rewards
            .members
            .iter()
            .find(|member| member.member_id == "ko")
            .unwrap()
            .experience_gained,
        0
    );
    assert_eq!(
        rewards,
        calculate_rewards(&state, &mut GameplayRng::from_seed(17))
    );
}

#[test]
fn recovery_items_cap_pools_and_refuse_an_enemy_target_without_using_the_item() {
    let mut user = actor(BattleSide::Party, 0, 10, 100);
    user.mana = 10;
    user.max_mana = 40;
    let mut ally = actor(BattleSide::Party, 1, 5, 200);
    ally.health = 150;
    let enemy = actor(BattleSide::Enemy, 0, 1, 100);
    let mut state = state_with(vec![user, ally, enemy]);
    let mut repository = RuntimeRepository::default();
    let _ = repository.add_item("potion", 2).unwrap();
    let _ = repository.add_item("ether", 1).unwrap();

    let events = resolve_battle_item(
        &mut state,
        CombatantKey::party(0),
        &potion(),
        CombatantKey::party(1),
        &mut repository,
    )
    .unwrap();
    assert!(matches!(events.as_slice(), [BattleEvent::Heal { amount: 50, .. }]));
    assert_eq!(repository.item_count("potion"), 1);

    assert_eq!(
        resolve_battle_item(
            &mut state,
            CombatantKey::party(0),
            &potion(),
            CombatantKey::enemy(0),
            &mut repository,
        ),
        Err(ItemUseError::InvalidTarget)
    );
    assert_eq!(repository.item_count("potion"), 1);

    let ether = recovery(
        "ether",
        ConsumableEffect::RestoreMp(RestoreMpEffect { restore_mp: PositiveInteger::new(50).unwrap() }),
    );
    let events = resolve_battle_item(
        &mut state,
        CombatantKey::party(0),
        &ether,
        CombatantKey::party(0),
        &mut repository,
    )
    .unwrap();
    assert!(matches!(events.as_slice(), [BattleEvent::ManaRestored { amount: 30, .. }]));
    assert_eq!(repository.item_count("ether"), 0);
    assert_eq!(
        resolve_battle_item(
            &mut state,
            CombatantKey::party(0),
            &ether,
            CombatantKey::party(0),
            &mut repository,
        ),
        Err(ItemUseError::Unavailable)
    );
}

#[test]
fn a_refused_cast_spends_nothing() {
    let mut caster = actor(BattleSide::Party, 0, 10, 40);
    caster.mana = 3;
    caster.max_mana = 30;
    caster.abilities = vec![fire_bolt()];
    let mut state = state_with(vec![caster, actor(BattleSide::Enemy, 0, 1, 50)]);
    let mut rng = GameplayRng::from_seed(1);
    assert_eq!(
        resolve_ability(&mut state, CombatantKey::party(0), 0, &[CombatantKey::enemy(0)], &mut rng),
        Err(rpg_s1::battle::ability::AbilityError::InsufficientMana)
    );
    assert_eq!(
        resolve_ability(&mut state, CombatantKey::party(0), 1, &[CombatantKey::enemy(0)], &mut rng),
        Err(rpg_s1::battle::ability::AbilityError::UnknownAbility)
    );
    assert_eq!(
        resolve_ability(&mut state, CombatantKey::party(0), 0, &[CombatantKey::party(0)], &mut rng),
        Err(rpg_s1::battle::ability::AbilityError::InvalidTarget)
    );
    assert_eq!(state.combatants[0].mana, 3);
    assert_eq!(state.combatants[1].health, 50);
}

#[test]
fn a_physical_action_resolves_without_touching_the_battle() {
    let mut state = state_with(vec![
        actor(BattleSide::Party, 0, 100, 20),
        actor(BattleSide::Enemy, 0, 1, 20),
    ]);
    let action = BattleAction::Physical {
        attacker: CombatantKey::party(0),
        target: CombatantKey::enemy(0),
    };
    let before = state.combatants[1].health;
    let event = rpg_s1::battle::resolver::resolve_action(&state, action, &mut GameplayRng::from_seed(9)).unwrap();
    assert_eq!(state.combatants[1].health, before);
    state.apply_event(event);
    match event {
        BattleEvent::Damage { amount, .. } => assert_eq!(state.combatants[1].health, before - amount),
        BattleEvent::Miss { .. } => assert_eq!(state.combatants[1].health, before),
        _ => panic!("a physical action yields a blow or a miss"),
    }
    assert_eq!(state.phase, BattlePhase::Resolve);
}

fn frame(actions: &[NormalizedAction]) -> ActionState {
    let mut state = ActionState::new();
    state.replace_with_normalized(actions);
    state
}

fn duel() -> BattleState {
    let mut hero = actor(BattleSide::Party, 0, 30, 50);
    hero.attack = 20;
    let foe = actor(BattleSide::Enemy, 0, 1, 10);
    state_with(vec![hero, foe])
}

fn press(
    state: &mut BattleState,
    actions: &[NormalizedAction],
    rng: &mut GameplayRng,
) -> (BattleInputOutcome, Vec<MenuSound>) {
    let mut repository = RuntimeRepository::default();
    let balance = BalanceData::default();
    handle_battle_input(state, &frame(actions), rng, &mut repository, Some(&balance), &[])
}

#[test]
fn the_command_menu_moves_refuses_and_opens_targeting() {
    let mut rng = GameplayRng::from_seed(7);
    let mut state = duel();
    let (outcome, sounds) = press(&mut state, &[NormalizedAction::MenuDown], &mut rng);
    assert_eq!(outcome, BattleInputOutcome::Continue);
    assert_eq!(state.command_index, 1);
    assert_eq!(sounds, vec![MenuSound::Hover]);

    let (_, sounds) = press(&mut state, &[NormalizedAction::Confirm], &mut rng);
    assert_eq!(state.message, "No usable abilities.");
    assert_eq!(sounds, vec![MenuSound::Blocked]);
    assert_eq!(state.phase, BattlePhase::Command);

    press(&mut state, &[NormalizedAction::MenuUp], &mut rng);
    assert_eq!(state.command_index, 0);
    let (_, sounds) = press(&mut state, &[NormalizedAction::Confirm], &mut rng);
    assert_eq!(sounds, vec![MenuSound::Confirm]);
    assert_eq!(state.phase, BattlePhase::Target);
    assert_eq!(state.message, "Choose a living enemy. ESC cancels.");

    press(&mut state, &[NormalizedAction::Back], &mut rng);
    assert_eq!(state.phase, BattlePhase::Command);
    assert_eq!(state.message, "Action cancelled.");
    assert!(state.target.is_none());

    press(&mut state, &[NormalizedAction::Confirm], &mut rng);
    press(&mut state, &[NormalizedAction::Confirm], &mut rng);
    assert_eq!(state.phase, BattlePhase::Resolve);
    assert!(state.target.is_none());
    assert_eq!(state.feedback_events.len(), 1);
}

#[test]
fn closing_screens_report_what_the_game_must_do() {
    let mut rng = GameplayRng::from_seed(1);
    let mut state = duel();
    state.phase = BattlePhase::Defeat;
    assert_eq!(press(&mut state, &[], &mut rng).0, BattleInputOutcome::GameOver);
    state.phase = BattlePhase::Rewards;
    assert_eq!(press(&mut state, &[], &mut rng).0, BattleInputOutcome::Continue);
    assert_eq!(
        press(&mut state, &[NormalizedAction::Confirm], &mut rng).0,
        BattleInputOutcome::ReturnToWorld
    );
    state.phase = BattlePhase::Victory;
    assert_eq!(
        press(&mut state, &[NormalizedAction::Confirm], &mut rng).0,
        BattleInputOutcome::ClaimRewards
    );
    let mut repository = RuntimeRepository::default();
    let (outcome, _) = handle_battle_input(
        &mut state,
        &frame(&[NormalizedAction::Confirm]),
        &mut rng,
        &mut repository,
        None,
        &[],
    );
    assert_eq!(outcome, BattleInputOutcome::Continue);
    assert_eq!(state.message, "Battle balance is still loading.");
}

#[test]
fn a_boss_blocks_the_escape_and_confirming_passes_the_turn() {
    let mut rng = GameplayRng::from_seed(3);
    let mut state = duel();
    state.combatants[1].boss = true;
    let (_, sounds) = press(&mut state, &[NormalizedAction::Back], &mut rng);
    assert_eq!(state.phase, BattlePhase::Flee);
    assert_eq!(state.flee_outcome, Some(FleeOutcome::Blocked));
    assert_eq!(state.message, "Can't escape from a boss! Press Enter.");
    assert_eq!(state.transcript.last().unwrap(), "FLEE Blocked");
    assert_eq!(sounds, vec![MenuSound::Blocked]);
    let (outcome, _) = press(&mut state, &[NormalizedAction::Confirm], &mut rng);
    assert_eq!(outcome, BattleInputOutcome::Continue);
    assert_eq!(state.phase, BattlePhase::Advance);
}

#[test]
fn an_item_is_chosen_targeted_and_taken_from_the_bag() {
    let mut rng = GameplayRng::from_seed(5);
    let mut state = duel();
    state.combatants[0].health = 10;
    state.item_choices = vec![BattleItemChoice {
        id: "potion".to_owned(),
        name: "Potion".to_owned(),
        quantity: 1,
    }];
    let mut repository = RuntimeRepository::default();
    repository.add_item("potion", 1).unwrap();
    let balance = BalanceData::default();
    let items = [potion()];
    let mut step = |state: &mut BattleState, actions: &[NormalizedAction]| {
        handle_battle_input(state, &frame(actions), &mut rng, &mut repository, Some(&balance), &items)
    };
    step(&mut state, &[NormalizedAction::MenuDown]);
    step(&mut state, &[NormalizedAction::MenuDown]);
    step(&mut state, &[NormalizedAction::Confirm]);
    assert_eq!(state.phase, BattlePhase::Item);
    assert_eq!(state.message, "Choose an item. ESC cancels.");
    step(&mut state, &[NormalizedAction::Confirm]);
    assert_eq!(state.phase, BattlePhase::Target);
    assert_eq!(state.pending_item.as_deref(), Some("potion"));
    step(&mut state, &[NormalizedAction::Confirm]);
    assert_eq!(state.phase, BattlePhase::Resolve);
    assert_eq!(state.combatants[0].health, 50);
    assert!(state.item_choices.is_empty());
    assert_eq!(state.item_index, 0);
    assert_eq!(repository.item_count("potion"), 0);
}

#[test]
fn the_command_panel_names_the_turn_and_marks_closed_commands() {
    let state = duel();
    let panel = command_panel(&state);
    assert_eq!(panel.title, "Party 0's Turn");
    let labels: Vec<&str> = panel.rows.iter().map(|row| row.label.as_str()).collect();
    assert_eq!(labels, vec!["Attack", "Spell  --", "Item  --", "Run"]);
    assert_eq!(
        panel.rows.iter().map(|row| row.tone).collect::<Vec<_>>(),
        vec![RowTone::Ink, RowTone::Dim, RowTone::Dim, RowTone::Ink]
    );
    assert!(panel.rows[0].selected && !panel.rows[1].selected);

    let mut casting = duel();
    casting.combatants[0].abilities = vec![fire_bolt()];
    casting.combatants[0].mana = 3;
    casting.combatants[0].max_mana = 10;
    casting.phase = BattlePhase::Ability;
    assert_eq!(casting.battle_ability_indices(), vec![0]);
    let panel = command_panel(&casting);
    assert_eq!(panel.title, "Party 0's Abilities");
    assert_eq!(panel.rows[0].label, "Fire Bolt  4 MP");
    assert_eq!(panel.rows[0].tone, RowTone::Dim);
    assert_eq!(panel.rows[1].label, "");
    assert_eq!(meter_label(MeterKind::Health, 7, 40), "HP 7/40");
    assert_eq!(target_caption(&casting), "");
}

/// A fire spell over every living enemy for 20 mana.
fn flame_wall() -> Ability {
    Ability {
        id: "flame_wall".to_owned(),
        name: "Flame Wall".to_owned(),
        mp_cost: 20,
        kind: AbilityKind::Spell(SpellAbility {
            target: AbilityTarget::AllEnemies,
            spell_coeff: PositiveFinite::new(8_000).unwrap(),
            element: AbilityElement::Fire,
            side_effects: Vec::new(),
        }),
    }
}

#[test]
fn offensive_spell_charges_once_and_resolves_single_and_all_target_shapes() {
    let mut caster = actor(BattleSide::Party, 0, 10, 40);
    caster.magic_resistance = 15;
    caster.mana = 30;
    caster.max_mana = 30;
    caster.abilities = vec![fire_bolt(), flame_wall()];
    let mut first = actor(BattleSide::Enemy, 0, 1, 50);
    first.magic_resistance = 3;
    let second = actor(BattleSide::Enemy, 1, 1, 50);
    let mut state = state_with(vec![caster, first, second]);

    let events = resolve_ability(
        &mut state,
        CombatantKey::party(0),
        0,
        &[CombatantKey::enemy(0)],
        &mut GameplayRng::from_seed(2),
    )
    .unwrap();
    assert_eq!(state.actor(CombatantKey::party(0)).unwrap().mana, 26);
    assert_eq!(state.actor(CombatantKey::enemy(0)).unwrap().health, 38);
    assert_eq!(state.actor(CombatantKey::enemy(1)).unwrap().health, 50);
    assert_eq!(state.phase, BattlePhase::Resolve);
    assert!(matches!(
        events.as_slice(),
        [BattleEvent::MagicDamage { amount: 12, .. }]
    ));

    state.phase = BattlePhase::Ability;
    let events = resolve_ability(
        &mut state,
        CombatantKey::party(0),
        1,
        &[CombatantKey::enemy(0), CombatantKey::enemy(1)],
        &mut GameplayRng::from_seed(3),
    )
    .unwrap();
    assert_eq!(
        events
            .iter()
            .filter(|event| matches!(event, BattleEvent::MagicDamage { .. }))
            .count(),
        2
    );
    assert_eq!(state.actor(CombatantKey::party(0)).unwrap().mana, 6);
}

#[test]
fn adding_a_status_again_replaces_it_in_place() {
    let mut member = actor(BattleSide::Party, 0, 5, 30);
    assert!(member.add_status(ActiveStatus::timed(StatusEffect::Stun, 1)));
    assert!(member.add_status(ActiveStatus::timed(StatusEffect::Silence, 2)));
    assert!(member.add_status(ActiveStatus::timed(StatusEffect::Stun, 3)));
    assert_eq!(member.status_effects.len(), 2);
    assert_eq!(member.status_effects[0], ActiveStatus::timed(StatusEffect::Stun, 3));
    assert_eq!(member.status_effects[1], ActiveStatus::timed(StatusEffect::Silence, 2));
}

#[test]
fn claimed_rewards_open_the_rewards_screen_once() {
    let mut state = state_with(vec![actor(BattleSide::Party, 0, 5, 30), actor(BattleSide::Enemy, 0, 1, 0)]);
    state.phase = BattlePhase::Victory;
    let rewards = rpg_s1::battle::rewards::BattleRewards {
        total_experience: 12,
        gp_gained: 0,
        members: Vec::new(),
        loot: Vec::new(),
        boss_flag: None,
    };
    let message = rewards.detail_message();
    rpg_s1::battle::input::claim_rewards(&mut state, Ok(rewards.clone()));
    assert_eq!(state.phase, BattlePhase::Rewards);
    assert_eq!(state.rewards, Some(rewards.clone()));
    assert_eq!(state.message, message);

    rpg_s1::battle::input::claim_rewards(&mut state, Ok(rewards.clone()));
    assert_eq!(state.phase, BattlePhase::Rewards);
    assert_eq!(state.message, "Could not apply rewards: battle rewards were already applied");

    let mut failed = state_with(vec![actor(BattleSide::Party, 0, 5, 30)]);
    failed.phase = BattlePhase::Victory;
    rpg_s1::battle::input::claim_rewards(
        &mut failed,
        Err(rpg_s1::battle::rewards::RewardError::MissingClass("knight".to_owned())),
    );
    assert_eq!(failed.phase, BattlePhase::Victory);
    assert!(failed.rewards.is_none());
    assert_eq!(failed.message, "Could not apply rewards: reward class `knight` is missing");
}
