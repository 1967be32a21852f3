//! Casting abilities: targeting plans, elemental affinity, and the effects of each ability
//! shape on the battle.

use vstd::prelude::*;

use crate::battle::action::{BattleAction, BattleEvent};
use crate::battle::model::{
    clamp_u32, eligible_keys, eligible_on, mitigated, scale, scale_i64, with_status,
    BattleCombatant, BattlePhase, BattleSide, BattleState, CombatantKey, TargetGroup,
};
use crate::battle::resolver::{
    advanced, first_index_of, lemma_first_index_of_bounds, lemma_first_index_of_same_keys,
};
use crate::battle::rules::{critical_damage, critical_hit_chance, roll_succeeds};
use crate::battle::resolver::{side_label, side_name};
use crate::gameplay_rng::{next_state, GameplayRng};
use crate::text::{concat4, decimal, decimal_string};
use crate::battle::status::{ActiveStatus, StatusEffect, StatusPotency};
use crate::scenario_class::{
    Ability, AbilityElement, AbilityKind, AbilitySideEffect, AbilityTarget, BuffEffect,
    AttackRange, EffectStat, EffectTarget, HealingMethod, PhysicalAbility, PositiveFinite,
    SpellAbility,
    StatModifierEffect, UtilityAbility, MYRIAD,
};
use crate::scenario_enemy::{EnemyImmunity, EnemyType};

verus! {

/// How an element fares against a target.
#[derive(Clone, Copy, Debug, PartialEq, Eq, Structural)]
pub enum ElementalAffinity {
    Weak,
    Neutral,
    Resistant,
}

/// Damage after elemental affinity: half again (from a saturated triple) against a weakness,
/// halved (at least one) against a resistance.
pub open spec fn spec_elemental_damage(damage: nat, affinity: ElementalAffinity) -> nat {
    match affinity {
        ElementalAffinity::Weak => (if damage * 3 > u32::MAX {
            u32::MAX as nat
        } else {
            damage * 3
        }) / 2,
        ElementalAffinity::Neutral => damage,
        ElementalAffinity::Resistant => if damage / 2 == 0 {
            1
        } else {
            damage / 2
        },
    }
}

/// Damage after elemental affinity.
pub fn elemental_damage(damage: u32, affinity: ElementalAffinity) -> (r: u32)
    ensures
        r == spec_elemental_damage(damage as nat, affinity),
{
    match affinity {
        ElementalAffinity::Weak => {
            let tripled: u64 = damage as u64 * 3;
            let capped: u64 = if tripled > u32::MAX as u64 {
                u32::MAX as u64
            } else {
                tripled
            };
            (capped / 2) as u32
        },
        ElementalAffinity::Neutral => damage,
        ElementalAffinity::Resistant => {
            let half = damage / 2;
            if half == 0 {
                1
            } else {
                half
            }
        },
    }
}

/// Holy spells strike the undead and demons at their weakness; everything else is neutral.
pub open spec fn spec_elemental_affinity(element: AbilityElement, enemy_type: Option<EnemyType>) -> ElementalAffinity {
    if element == AbilityElement::Holy && (enemy_type == Some(EnemyType::Undead) || enemy_type
        == Some(EnemyType::Demon)) {
        ElementalAffinity::Weak
    } else {
        ElementalAffinity::Neutral
    }
}

/// Holy is the one element with a weakness to strike: against the undead and demons it is
/// Weak, so a blow of `d` (with `3 * d` in range) lands for half again as much; every other
/// pairing is neutral and leaves the blow as it was, and nothing resists.
pub proof fn lemma_holy_smites_undead_and_demons(element: AbilityElement, enemy_type: Option<EnemyType>, d: nat)
    ensures
        spec_elemental_affinity(AbilityElement::Holy, Some(EnemyType::Undead)) == ElementalAffinity::Weak,
        spec_elemental_affinity(AbilityElement::Holy, Some(EnemyType::Demon)) == ElementalAffinity::Weak,
        element != AbilityElement::Holy ==> spec_elemental_affinity(element, enemy_type)
            == ElementalAffinity::Neutral,
        enemy_type != Some(EnemyType::Undead) && enemy_type != Some(EnemyType::Demon)
            ==> spec_elemental_affinity(element, enemy_type) == ElementalAffinity::Neutral,
        spec_elemental_affinity(element, enemy_type) != ElementalAffinity::Resistant,
        d * 3 <= u32::MAX ==> spec_elemental_damage(
            d,
            spec_elemental_affinity(AbilityElement::Holy, Some(EnemyType::Demon)),
        ) == d * 3 / 2 && spec_elemental_damage(
            d,
            spec_elemental_affinity(AbilityElement::Holy, Some(EnemyType::Undead)),
        ) == d * 3 / 2,
        element != AbilityElement::Holy ==> spec_elemental_damage(d, spec_elemental_affinity(element, enemy_type))
            == d,
{
}

/// How `element` fares against a target of `enemy_type`.
pub fn elemental_affinity(element: AbilityElement, enemy_type: Option<EnemyType>) -> (r:
    ElementalAffinity)
    ensures
        r == spec_elemental_affinity(element, enemy_type),
{
    let weak_type = match enemy_type {
        Some(EnemyType::Undead) => true,
        Some(EnemyType::Demon) => true,
        _ => false,
    };
    if element == AbilityElement::Holy && weak_type {
        ElementalAffinity::Weak
    } else {
        ElementalAffinity::Neutral
    }
}

/// Whom an ability is aimed at.
#[derive(Clone, Copy, Debug, PartialEq, Eq, Structural)]
pub enum AbilityTargetPlan {
    /// One chosen combatant of a group.
    Select { group: TargetGroup, ko_eligible: bool },
    /// Every eligible combatant of a side.
    All { side: BattleSide, ko_eligible: bool },
    /// The caster.
    SelfTarget,
}

/// Whether an ability can be cast in battle: stealing and warping cannot.
pub open spec fn spec_battle_ability(ability: Ability) -> bool {
    !(ability.kind matches AbilityKind::Utility(UtilityAbility::Steal { .. }) || ability.kind
        matches AbilityKind::Utility(UtilityAbility::Warp { .. }))
}

/// Whether an ability can be cast in battle.
pub fn battle_ability(ability: &Ability) -> (r: bool)
    ensures
        r == spec_battle_ability(*ability),
{
    match &ability.kind {
        AbilityKind::Utility(UtilityAbility::Steal { .. }) => false,
        AbilityKind::Utility(UtilityAbility::Warp { .. }) => false,
        _ => true,
    }
}

/// Who a buff lands on.
pub open spec fn spec_buff_target(effect: BuffEffect) -> EffectTarget {
    match effect {
        BuffEffect::StatModifier(v) => v.target,
        BuffEffect::Aggro(v) => v.target,
        BuffEffect::RedirectDamage(v) => v.target,
        BuffEffect::DamageReduction(v) => v.target,
    }
}

/// Who a buff lands on.
pub fn buff_target(effect: &BuffEffect) -> (r: EffectTarget)
    ensures
        r == spec_buff_target(*effect),
{
    match effect {
        BuffEffect::StatModifier(v) => v.target,
        BuffEffect::Aggro(v) => v.target,
        BuffEffect::RedirectDamage(v) => v.target,
        BuffEffect::DamageReduction(v) => v.target,
    }
}

/// The plan for a buff or debuff target.
pub open spec fn spec_effect_target_plan(target: EffectTarget) -> AbilityTargetPlan {
    match target {
        EffectTarget::Party => AbilityTargetPlan::All { side: BattleSide::Party, ko_eligible: false },
        EffectTarget::AllEnemies => AbilityTargetPlan::All {
            side: BattleSide::Enemy,
            ko_eligible: false,
        },
        EffectTarget::SingleEnemy => AbilityTargetPlan::Select {
            group: TargetGroup::Enemy,
            ko_eligible: false,
        },
        EffectTarget::SelfTarget => AbilityTargetPlan::SelfTarget,
        EffectTarget::SingleAlly => AbilityTargetPlan::Select {
            group: TargetGroup::Ally,
            ko_eligible: false,
        },
    }
}

/// The plan for a buff or debuff target.
pub fn effect_target_plan(target: EffectTarget) -> (r: AbilityTargetPlan)
    ensures
        r == spec_effect_target_plan(target),
{
    match target {
        EffectTarget::Party => AbilityTargetPlan::All { side: BattleSide::Party, ko_eligible: false },
        EffectTarget::AllEnemies => AbilityTargetPlan::All {
            side: BattleSide::Enemy,
            ko_eligible: false,
        },
        EffectTarget::SingleEnemy => AbilityTargetPlan::Select {
            group: TargetGroup::Enemy,
            ko_eligible: false,
        },
        EffectTarget::SelfTarget => AbilityTargetPlan::SelfTarget,
        EffectTarget::SingleAlly => AbilityTargetPlan::Select {
            group: TargetGroup::Ally,
            ko_eligible: false,
        },
    }
}

/// The authored target of a non-buff ability.
pub open spec fn authored_target(kind: AbilityKind) -> AbilityTarget {
    match kind {
        AbilityKind::Physical(v) => v.target,
        AbilityKind::Spell(v) => v.target,
        AbilityKind::Heal(v) => v.target,
        AbilityKind::Utility(UtilityAbility::RemoveStatus { target }) => target,
        AbilityKind::Utility(UtilityAbility::Steal { target }) => target,
        AbilityKind::Utility(UtilityAbility::Warp { target }) => target,
        _ => AbilityTarget::SelfTarget,
    }
}

/// Whether an ability revives.
pub open spec fn is_revive(kind: AbilityKind) -> bool {
    kind matches AbilityKind::Heal(h) && h.healing is Revive
}

/// Whom an ability is aimed at: buffs and debuffs by their effect's target; revives at the
/// knocked out; everything else at the living of its authored target.
pub open spec fn spec_target_plan(ability: Ability) -> AbilityTargetPlan {
    match ability.kind {
        AbilityKind::Buff(v) => spec_effect_target_plan(spec_buff_target(v.effect)),
        AbilityKind::Debuff(v) => spec_effect_target_plan(v.effect.target),
        _ => {
            let revive = is_revive(ability.kind);
            match authored_target(ability.kind) {
                AbilityTarget::SingleEnemy => AbilityTargetPlan::Select {
                    group: TargetGroup::Enemy,
                    ko_eligible: false,
                },
                AbilityTarget::AllEnemies => AbilityTargetPlan::All {
                    side: BattleSide::Enemy,
                    ko_eligible: false,
                },
                AbilityTarget::GroupEnemies => AbilityTargetPlan::All {
                    side: BattleSide::Enemy,
                    ko_eligible: false,
                },
                AbilityTarget::SingleAlly => AbilityTargetPlan::Select {
                    group: TargetGroup::Ally,
                    ko_eligible: revive,
                },
                AbilityTarget::SelfTarget => AbilityTargetPlan::SelfTarget,
                AbilityTarget::AllAllies => AbilityTargetPlan::All {
                    side: BattleSide::Party,
                    ko_eligible: revive,
                },
            }
        },
    }
}

/// Whom an ability is aimed at.
pub fn target_plan(ability: &Ability) -> (r: AbilityTargetPlan)
    ensures
        r == spec_target_plan(*ability),
{
    let target = match &ability.kind {
        AbilityKind::Physical(v) => v.target,
        AbilityKind::Spell(v) => v.target,
        AbilityKind::Heal(v) => v.target,
        AbilityKind::Utility(UtilityAbility::RemoveStatus { target }) => *target,
        AbilityKind::Utility(UtilityAbility::Steal { target }) => *target,
        AbilityKind::Utility(UtilityAbility::Warp { target }) => *target,
        AbilityKind::Buff(v) => return effect_target_plan(buff_target(&v.effect)),
        AbilityKind::Debuff(v) => return effect_target_plan(v.effect.target),
    };
    let revive = match &ability.kind {
        AbilityKind::Heal(v) => match v.healing {
            HealingMethod::Revive { .. } => true,
            _ => false,
        },
        _ => false,
    };
    match target {
        AbilityTarget::SingleEnemy => AbilityTargetPlan::Select {
            group: TargetGroup::Enemy,
            ko_eligible: false,
        },
        AbilityTarget::AllEnemies => AbilityTargetPlan::All {
            side: BattleSide::Enemy,
            ko_eligible: false,
        },
        AbilityTarget::GroupEnemies => AbilityTargetPlan::All {
            side: BattleSide::Enemy,
            ko_eligible: false,
        },
        AbilityTarget::SingleAlly => AbilityTargetPlan::Select {
            group: TargetGroup::Ally,
            ko_eligible: revive,
        },
        AbilityTarget::SelfTarget => AbilityTargetPlan::SelfTarget,
        AbilityTarget::AllAllies => AbilityTargetPlan::All {
            side: BattleSide::Party,
            ko_eligible: revive,
        },
    }
}

/// Whether `target` names a combatant of `group`'s side that is alive (or, for a revive,
/// knocked out).
pub open spec fn spec_target_eligible(
    cs: Seq<BattleCombatant>,
    target: CombatantKey,
    group: TargetGroup,
    ko_eligible: bool,
) -> bool {
    let i = first_index_of(cs, target);
    i >= 0 && eligible_on(cs[i], group.side(), ko_eligible)
}

/// Whether `target` is an eligible pick for a `Select` plan.
pub fn target_eligible(state: &BattleState, target: CombatantKey, group: TargetGroup, ko_eligible: bool) -> (r: bool)
    ensures
        r == spec_target_eligible(state.combatants@, target, group, ko_eligible),
{
    let side = match group {
        TargetGroup::Enemy => BattleSide::Enemy,
        TargetGroup::Ally => BattleSide::Party,
    };
    match state.actor_index(target) {
        Some(i) => state.combatants[i].key.side == side && state.combatants[i].is_alive()
            != ko_eligible,
        None => false,
    }
}

/// Whether `targets` is exactly what the ability's plan allows: the caster alone, one eligible
/// pick, or every eligible combatant of the side in combatant order.
pub open spec fn spec_targets_match(
    cs: Seq<BattleCombatant>,
    caster: CombatantKey,
    ability: Ability,
    targets: Seq<CombatantKey>,
) -> bool {
    match spec_target_plan(ability) {
        AbilityTargetPlan::SelfTarget => targets == seq![caster],
        AbilityTargetPlan::Select { group, ko_eligible } => targets.len() == 1
            && spec_target_eligible(cs, targets[0], group, ko_eligible),
        AbilityTargetPlan::All { side, ko_eligible } => targets == eligible_keys(
            cs,
            side,
            ko_eligible,
        ),
    }
}

/// Whether two key lists are equal.
fn keys_equal(a: &[CombatantKey], b: &[CombatantKey]) -> (r: bool)
    ensures
        r == (a@ == b@),
{
    if a.len() != b.len() {
        return false;
    }
    let mut i: usize = 0;
    while i < a.len()
        invariant
            a@.len() == b@.len(),
            i <= a@.len(),
            forall|k: int| 0 <= k < i ==> a@[k] == b@[k],
        decreases a.len() - i,
    {
        if a[i] != b[i] {
            return false;
        }
        i = i + 1;
    }
    assert(a@ =~= b@);
    true
}

/// Whether `targets` is exactly what the ability's plan allows.
pub fn targets_match_plan(
    state: &BattleState,
    caster: CombatantKey,
    ability: &Ability,
    targets: &[CombatantKey],
) -> (r: bool)
    ensures
        r == spec_targets_match(state.combatants@, caster, *ability, targets@),
{
    match target_plan(ability) {
        AbilityTargetPlan::SelfTarget => {
            let only = [caster];
            let ok = keys_equal(targets, &only);
            assert(only@ =~= seq![caster]);
            ok
        },
        AbilityTargetPlan::Select { group, ko_eligible } => targets.len() == 1 && target_eligible(
            state,
            targets[0],
            group,
            ko_eligible,
        ),
        AbilityTargetPlan::All { side, ko_eligible } => {
            let expected = crate::battle::model::collect_eligible(state.combatants.as_slice(), side, ko_eligible);
            keys_equal(targets, expected.as_slice())
        },
    }
}

/// Why a cast is refused.
#[derive(Clone, Copy, Debug, PartialEq, Eq, Structural)]
pub enum AbilityError {
    UnknownCaster,
    UnknownAbility,
    InvalidTarget,
    InsufficientMana,
    Silenced,
    Unsupported,
}

/// The status a stat modifier leaves.
pub open spec fn modifier_effect(stat: EffectStat) -> StatusEffect {
    match stat {
        EffectStat::Attack => StatusEffect::AttackModifier,
        EffectStat::Defense => StatusEffect::DefenseModifier,
        EffectStat::MagicResistance => StatusEffect::MagicResistanceModifier,
        EffectStat::HitChance => StatusEffect::HitChanceModifier,
    }
}

/// The timed status a stat modifier leaves.
pub fn status_from_modifier(effect: &StatModifierEffect) -> (r: ActiveStatus)
    ensures
        r == (ActiveStatus {
            effect: modifier_effect(effect.stat),
            remaining_turns: Some(effect.duration_turns),
            potency: crate::battle::status::StatusPotency::Multiplier(effect.modifier.value() as u64),
        }),
{
    let status = match effect.stat {
        EffectStat::Attack => StatusEffect::AttackModifier,
        EffectStat::Defense => StatusEffect::DefenseModifier,
        EffectStat::MagicResistance => StatusEffect::MagicResistanceModifier,
        EffectStat::HitChance => StatusEffect::HitChanceModifier,
    };
    ActiveStatus::modifier(status, effect.duration_turns, effect.modifier.get())
}

/// Every combatant keeps all but its health and statuses, and every pool stays in range.
pub open spec fn only_health_and_statuses(after: Seq<BattleCombatant>, before: Seq<BattleCombatant>) -> bool {
    &&& after.len() == before.len()
    &&& forall|j: int| #![auto] 0 <= j < after.len() ==> after[j].same_but_health_and_statuses(&before[j])
}

/// Every combatant's health and mana are within their maximums.
pub open spec fn pools_ok(cs: Seq<BattleCombatant>) -> bool {
    forall|j: int| #![auto] 0 <= j < cs.len() ==> cs[j].pools_in_range()
}

/// Nothing but the combatants changed.
pub open spec fn only_combatants_changed(after: &BattleState, before: &BattleState) -> bool {
    &&& after.same_bookkeeping(before)
    &&& after.phase == before.phase
    &&& after.message == before.message
    &&& after.transcript == before.transcript
    &&& after.feedback_events == before.feedback_events
}

/// Whether a status lands on `c`: it must be alive, and a construct refuses harmful statuses.
pub open spec fn status_lands(c: BattleCombatant, status: ActiveStatus) -> bool {
    c.alive() && !(c.enemy_type == Some(EnemyType::Construct) && status.effect.spec_is_harmful())
}

/// Applies `status` to a living `target`, recording it when it lands.
pub fn apply_status(
    state: &mut BattleState,
    source: CombatantKey,
    target: CombatantKey,
    status: ActiveStatus,
    events: &mut Vec<BattleEvent>,
)
    requires
        pools_ok(old(state).combatants@),
    ensures
        only_combatants_changed(final(state), old(state)),
        only_health_and_statuses(final(state).combatants@, old(state).combatants@),
        pools_ok(final(state).combatants@),
        ({
            let cs = old(state).combatants@;
            let i = first_index_of(cs, target);
            if i >= 0 && status_lands(cs[i], status) {
                &&& final(state).combatants@ == cs.update(i, final(state).combatants@[i])
                &&& final(state).combatants@[i].health == cs[i].health
                &&& final(state).combatants@[i].status_effects@ == with_status(
                    cs[i].status_effects@,
                    status,
                )
                &&& final(events)@ == old(events)@.push(
                    BattleEvent::StatusApplied { source, target, status },
                )
            } else {
                &&& final(state).combatants == old(state).combatants
                &&& final(events)@ == old(events)@
            }
        }),
{
    let ghost cs = state.combatants@;
    proof {
        lemma_first_index_of_bounds(cs, target);
    }
    if let Some(i) = state.actor_index(target) {
        let construct = match state.combatants[i].enemy_type {
            Some(EnemyType::Construct) => true,
            _ => false,
        };
        if state.combatants[i].is_alive() && !(construct && status.effect.is_harmful()) {
            let _ = state.combatants[i].add_status(status);
            proof {
                assert(state.combatants@ =~= cs.update(i as int, state.combatants@[i as int]));
            }
            events.push(BattleEvent::StatusApplied { source, target, status });
        }
    }
}


/// Every key of `eligible_keys` names a combatant.
pub proof fn lemma_eligible_keys_present(cs: Seq<BattleCombatant>, side: BattleSide, ko_eligible: bool, k: int)
    requires
        0 <= k < eligible_keys(cs, side, ko_eligible).len(),
    ensures
        first_index_of(cs, eligible_keys(cs, side, ko_eligible)[k]) >= 0,
    decreases cs.len(),
{
    let rest = eligible_keys(cs.drop_last(), side, ko_eligible);
    if k < rest.len() {
        lemma_eligible_keys_present(cs.drop_last(), side, ko_eligible, k);
    } else {
        let key = cs.last().key;
        lemma_first_index_of_bounds(cs.drop_last(), key);
    }
}

/// The spell damage a target takes: the caster's magic resistance scaled by the coefficient,
/// less the target's effective magic resistance (at least one, read as `u32`), after elemental
/// affinity and the target's reductions, capped at its health.
pub open spec fn spell_damage(
    caster_magic_resistance: int,
    target: BattleCombatant,
    coefficient: nat,
    element: AbilityElement,
) -> nat {
    let raw = scale_i64(caster_magic_resistance, coefficient as int)
        - target.spec_effective_magic_resistance();
    let base = (if raw < 1 {
        1
    } else {
        raw
    }) as u32;
    let elemental = spec_elemental_damage(
        base as nat,
        spec_elemental_affinity(element, target.enemy_type),
    );
    let dealt = mitigated(elemental, target.status_effects@);
    if dealt <= target.health {
        dealt
    } else {
        target.health as nat
    }
}

/// Health after a restorative heal: `raw` added, capped at the maximum; nothing for the
/// knocked out.
pub open spec fn restore_amount(
    caster_magic_resistance: int,
    target: BattleCombatant,
    coefficient: nat,
    max_hp_percent: Option<nat>,
) -> nat {
    match max_hp_percent {
        Some(p) => (target.max_health as nat * p / MYRIAD as nat),
        None => clamp_u32(scale_i64(caster_magic_resistance, coefficient as int)) as nat,
    }
}

/// The chance and status of a spell side effect; a burn scorches for a tenth of the source's
/// attack (at least one).
pub open spec fn side_effect_status(effect: AbilitySideEffect, source_attack: Option<i64>) -> (nat, ActiveStatus) {
    match effect {
        AbilitySideEffect::Burn { chance, duration_turns } => {
            let damage: u32 = match source_attack {
                Some(attack) => {
                    let tenth = ((if attack < 0 {
                        0
                    } else {
                        attack
                    }) as u32) / 10;
                    if tenth == 0 {
                        1
                    } else {
                        tenth
                    }
                },
                None => 1,
            };
            (
                chance.value(),
                ActiveStatus {
                    effect: StatusEffect::Burn,
                    remaining_turns: Some(duration_turns),
                    potency: StatusPotency::DamagePerTurn(damage),
                },
            )
        },
        AbilitySideEffect::Freeze { chance, duration_turns } => (
            chance.value(),
            ActiveStatus {
                effect: StatusEffect::Freeze,
                remaining_turns: Some(duration_turns),
                potency: StatusPotency::Inert,
            },
        ),
        AbilitySideEffect::Stun { chance, duration_turns } => (
            chance.value(),
            ActiveStatus {
                effect: StatusEffect::Stun,
                remaining_turns: Some(duration_turns),
                potency: StatusPotency::Inert,
            },
        ),
        AbilitySideEffect::Silence { chance, duration_turns } => (
            chance.value(),
            ActiveStatus {
                effect: StatusEffect::Silence,
                remaining_turns: Some(duration_turns),
                potency: StatusPotency::Inert,
            },
        ),
        AbilitySideEffect::Knockback { chance, atk_modifier, duration_turns } => (
            chance.value(),
            ActiveStatus {
                effect: StatusEffect::Knockback,
                remaining_turns: Some(duration_turns),
                potency: StatusPotency::Multiplier(atk_modifier.value() as u64),
            },
        ),
    }
}

/// Whether every event after position `from` is a status `source` applied to `target`.
pub open spec fn only_statuses_applied(events: Seq<BattleEvent>, from: int, source: CombatantKey, target: CombatantKey) -> bool {
    forall|k: int|
        from <= k < events.len() ==> (#[trigger] events[k] matches BattleEvent::StatusApplied {
            source: s,
            target: t,
            ..
        } && s == source && t == target)
}

/// The attack the source of a side effect burns with: its own, when it is on the field.
pub open spec fn source_attack_of(cs: Seq<BattleCombatant>, source: CombatantKey) -> Option<i64> {
    let si = first_index_of(cs, source);
    if si >= 0 {
        Some(cs[si].attack)
    } else {
        None
    }
}

/// Whether the side effect at the head of `effects` lands on `c` with the draw from state `s`.
pub open spec fn side_effect_lands(
    effect: AbilitySideEffect,
    source_attack: Option<i64>,
    c: BattleCombatant,
    s: u64,
) -> bool {
    let (chance, status) = side_effect_status(effect, source_attack);
    crate::battle::rules::roll_hits(crate::gameplay_rng::output(s), chance) && status_lands(c, status)
}

/// The statuses `c` carries after a spell's side effects are rolled in order from state `s`,
/// one draw each: each that hits, and that `c` accepts, is added.
pub open spec fn side_effect_statuses(
    effects: Seq<AbilitySideEffect>,
    source_attack: Option<i64>,
    c: BattleCombatant,
    statuses: Seq<ActiveStatus>,
    s: u64,
) -> Seq<ActiveStatus>
    decreases effects.len(),
{
    if effects.len() == 0 {
        statuses
    } else {
        let status = side_effect_status(effects[0], source_attack).1;
        side_effect_statuses(
            effects.drop_first(),
            source_attack,
            c,
            if side_effect_lands(effects[0], source_attack, c, s) {
                with_status(statuses, status)
            } else {
                statuses
            },
            next_state(s),
        )
    }
}

/// The events a spell's side effects raise: one per status that lands, in order.
pub open spec fn side_effect_events(
    effects: Seq<AbilitySideEffect>,
    source_attack: Option<i64>,
    c: BattleCombatant,
    s: u64,
    source: CombatantKey,
    target: CombatantKey,
) -> Seq<BattleEvent>
    decreases effects.len(),
{
    if effects.len() == 0 {
        Seq::empty()
    } else {
        let status = side_effect_status(effects[0], source_attack).1;
        let rest = side_effect_events(effects.drop_first(), source_attack, c, next_state(s), source, target);
        if side_effect_lands(effects[0], source_attack, c, s) {
            seq![BattleEvent::StatusApplied { source, target, status }] + rest
        } else {
            rest
        }
    }
}

/// Rolls one side effect: one draw, and the status added to `target` when the draw hits and the
/// target accepts it.
fn apply_one_side_effect(
    state: &mut BattleState,
    source: CombatantKey,
    target: CombatantKey,
    effect: AbilitySideEffect,
    rng: &mut GameplayRng,
    events: &mut Vec<BattleEvent>,
    Ghost(cs): Ghost<Seq<BattleCombatant>>,
)
    requires
        pools_ok(old(state).combatants@),
        only_health_and_statuses(old(state).combatants@, cs),
        forall|j: int| #![auto] 0 <= j < cs.len() ==> old(state).combatants@[j].health == cs[j].health,
    ensures
        only_combatants_changed(final(state), old(state)),
        only_health_and_statuses(final(state).combatants@, old(state).combatants@),
        forall|j: int|
            #![auto]
            0 <= j < old(state).combatants@.len() ==> final(state).combatants@[j].health == old(
                state,
            ).combatants@[j].health,
        pools_ok(final(state).combatants@),
        final(rng).spec_state() == next_state(old(rng).spec_state()),
        ({
            let ti = first_index_of(cs, target);
            let sa = source_attack_of(cs, source);
            let status = side_effect_status(effect, sa).1;
            if ti >= 0 && side_effect_lands(effect, sa, cs[ti], old(rng).spec_state()) {
                &&& final(state).combatants@ == old(state).combatants@.update(ti, final(state).combatants@[ti])
                &&& final(state).combatants@[ti].status_effects@ == with_status(
                    old(state).combatants@[ti].status_effects@,
                    status,
                )
                &&& final(events)@ == old(events)@.push(BattleEvent::StatusApplied { source, target, status })
            } else {
                &&& final(state).combatants == old(state).combatants
                &&& final(events)@ == old(events)@
            }
        }),
{
    let ghost ti = first_index_of(cs, target);
    let ghost sa = source_attack_of(cs, source);
    proof {
        lemma_first_index_of_bounds(cs, target);
        lemma_first_index_of_bounds(cs, source);
        assert forall|j: int| 0 <= j < cs.len() implies #[trigger] state.combatants@[j].key == cs[j].key by {
            assert(state.combatants@[j].same_but_health_and_statuses(&cs[j]));
        }
        lemma_first_index_of_same_keys(state.combatants@, cs, source);
        lemma_first_index_of_same_keys(state.combatants@, cs, target);
        if first_index_of(cs, source) >= 0 {
            let si = first_index_of(cs, source);
            assert(state.combatants@[si].same_but_health_and_statuses(&cs[si]));
        }
    }
    let (chance, status) = match effect {
        AbilitySideEffect::Burn { chance, duration_turns } => {
            let damage = match state.actor_index(source) {
                Some(k) => {
                    let attack = state.combatants[k].attack;
                    let clamped: i64 = if attack < 0 {
                        0
                    } else {
                        attack
                    };
                    let tenth = #[verifier::truncate] (clamped as u32) / 10;
                    if tenth == 0 {
                        1
                    } else {
                        tenth
                    }
                },
                None => 1,
            };
            (
                chance.get(),
                ActiveStatus::damage_over_time(StatusEffect::Burn, Some(duration_turns), damage),
            )
        },
        AbilitySideEffect::Freeze { chance, duration_turns } => (
            chance.get(),
            ActiveStatus::timed(StatusEffect::Freeze, duration_turns),
        ),
        AbilitySideEffect::Stun { chance, duration_turns } => (
            chance.get(),
            ActiveStatus::timed(StatusEffect::Stun, duration_turns),
        ),
        AbilitySideEffect::Silence { chance, duration_turns } => (
            chance.get(),
            ActiveStatus::timed(StatusEffect::Silence, duration_turns),
        ),
        AbilitySideEffect::Knockback { chance, atk_modifier, duration_turns } => (
            chance.get(),
            ActiveStatus::modifier(StatusEffect::Knockback, duration_turns, atk_modifier.get()),
        ),
    };
    assert((chance as nat, status) == side_effect_status(effect, sa));
    let ghost before = *state;
    let hit = roll_succeeds(rng, chance);
    if hit {
        apply_status(state, source, target, status, events);
    }
    proof {
        if ti >= 0 {
            assert(before.combatants@[ti].same_but_health_and_statuses(&cs[ti]));
            assert(before.combatants@[ti].health == cs[ti].health);
            assert(status_lands(before.combatants@[ti], status) == status_lands(cs[ti], status));
        }
        assert forall|j: int| #![auto] 0 <= j < before.combatants@.len() implies state.combatants@[j].health
            == before.combatants@[j].health by {
            if hit && ti >= 0 && status_lands(before.combatants@[ti], status) && j != ti {
                assert(state.combatants@[j] == before.combatants@.update(ti, state.combatants@[ti])[j]);
            }
        }
    }
}

/// Rolls each of a spell's side effects in order, one draw each, applying those that succeed
/// to a living target.
pub fn apply_side_effects(
    state: &mut BattleState,
    source: CombatantKey,
    target: CombatantKey,
    effects: &Vec<AbilitySideEffect>,
    rng: &mut GameplayRng,
    events: &mut Vec<BattleEvent>,
)
    requires
        pools_ok(old(state).combatants@),
    ensures
        only_combatants_changed(final(state), old(state)),
        only_health_and_statuses(final(state).combatants@, old(state).combatants@),
        forall|j: int|
            #![auto]
            0 <= j < old(state).combatants@.len() ==> final(state).combatants@[j].health == old(
                state,
            ).combatants@[j].health,
        pools_ok(final(state).combatants@),
        final(rng).spec_state() == advanced(old(rng).spec_state(), effects@.len()),
        final(events)@.len() >= old(events)@.len(),
        final(events)@.subrange(0, old(events)@.len() as int) == old(events)@,
        only_statuses_applied(final(events)@, old(events)@.len() as int, source, target),
        ({
            let cs = old(state).combatants@;
            let ti = first_index_of(cs, target);
            let sa = source_attack_of(cs, source);
            if ti >= 0 {
                &&& final(state).combatants@ == cs.update(ti, final(state).combatants@[ti])
                &&& final(state).combatants@[ti].status_effects@ == side_effect_statuses(
                    effects@,
                    sa,
                    cs[ti],
                    cs[ti].status_effects@,
                    old(rng).spec_state(),
                )
                &&& final(events)@ == old(events)@ + side_effect_events(
                    effects@,
                    sa,
                    cs[ti],
                    old(rng).spec_state(),
                    source,
                    target,
                )
            } else {
                &&& final(state).combatants == old(state).combatants
                &&& final(events)@ == old(events)@
            }
        }),
{
    let ghost s0 = rng.spec_state();
    let ghost e0 = events@;
    let ghost st0 = *state;
    let ghost cs = st0.combatants@;
    let ghost ti = first_index_of(cs, target);
    let ghost sa = source_attack_of(cs, source);
    proof {
        lemma_first_index_of_bounds(cs, target);
    }
    let mut i: usize = 0;
    assert(advanced(s0, 0) == s0);
    assert(effects@.skip(0) =~= effects@);
    assert(e0 + Seq::<BattleEvent>::empty() =~= e0);
    while i < effects.len()
        invariant
            i <= effects@.len(),
            cs == st0.combatants@,
            ti == first_index_of(cs, target),
            sa == source_attack_of(cs, source),
            -1 <= ti < cs.len(),
            only_combatants_changed(state, &st0),
            only_health_and_statuses(state.combatants@, st0.combatants@),
            forall|j: int|
                #![auto]
                0 <= j < st0.combatants@.len() ==> state.combatants@[j].health
                    == st0.combatants@[j].health,
            pools_ok(state.combatants@),
            rng.spec_state() == advanced(s0, i as nat),
            ti >= 0 ==> {
                &&& state.combatants@ == cs.update(ti, state.combatants@[ti])
                &&& side_effect_statuses(effects@, sa, cs[ti], cs[ti].status_effects@, s0)
                    == side_effect_statuses(
                    effects@.skip(i as int),
                    sa,
                    cs[ti],
                    state.combatants@[ti].status_effects@,
                    advanced(s0, i as nat),
                )
                &&& e0 + side_effect_events(effects@, sa, cs[ti], s0, source, target) == events@
                    + side_effect_events(
                    effects@.skip(i as int),
                    sa,
                    cs[ti],
                    advanced(s0, i as nat),
                    source,
                    target,
                )
            },
            ti < 0 ==> state.combatants == st0.combatants && events@ == e0,
        decreases effects.len() - i,
    {
        let effect = effects[i];
        let ghost before = *state;
        let ghost events_before = events@;
        proof {
            lemma_advanced_step(s0, i as nat);
            assert(effects@.skip(i as int)[0] == effect);
            assert(effects@.skip(i as int).drop_first() =~= effects@.skip(i + 1));
        }
        apply_one_side_effect(state, source, target, effect, rng, events, Ghost(cs));
        proof {
            if ti >= 0 {
                let c = cs[ti];
                let landed = side_effect_lands(effect, sa, c, advanced(s0, i as nat));
                if landed {
                    assert(state.combatants@ =~= cs.update(ti, state.combatants@[ti]));
                }
                assert(events_before + side_effect_events(effects@.skip(i as int), sa, c, advanced(s0, i as nat), source, target)
                    =~= events@ + side_effect_events(effects@.skip(i + 1), sa, c, advanced(s0, (i + 1) as nat), source, target));
            }
        }
        i = i + 1;
    }
    proof {
        if ti >= 0 {
            assert(effects@.skip(i as int).len() == 0);
            assert(events@ + Seq::<BattleEvent>::empty() =~= events@);
        }
        assert(events@.subrange(0, e0.len() as int) =~= e0) by {
            if ti >= 0 {
                assert(events@ == e0 + side_effect_events(effects@, sa, cs[ti], s0, source, target));
            }
        }
        lemma_side_effect_events_only_statuses(effects@, sa, if ti >= 0 { cs[ti] } else { cs[0] }, s0, source, target);
        if ti >= 0 {
            assert forall|k: int| e0.len() <= k < events@.len() implies (#[trigger] events@[k] matches BattleEvent::StatusApplied {
                source: s,
                target: t,
                ..
            } && s == source && t == target) by {
                assert(events@[k] == side_effect_events(effects@, sa, cs[ti], s0, source, target)[k - e0.len()]);
            }
        }
    }
}

/// Side effects read their target only through whether it is alive and what kind of enemy it is.
proof fn lemma_side_effects_same_target(
    effects: Seq<AbilitySideEffect>,
    source_attack: Option<i64>,
    c1: BattleCombatant,
    c2: BattleCombatant,
    statuses: Seq<ActiveStatus>,
    s: u64,
    source: CombatantKey,
    target: CombatantKey,
)
    requires
        c1.health == c2.health,
        c1.enemy_type == c2.enemy_type,
    ensures
        side_effect_statuses(effects, source_attack, c1, statuses, s) == side_effect_statuses(
            effects,
            source_attack,
            c2,
            statuses,
            s,
        ),
        side_effect_events(effects, source_attack, c1, s, source, target) == side_effect_events(
            effects,
            source_attack,
            c2,
            s,
            source,
            target,
        ),
    decreases effects.len(),
{
    if effects.len() > 0 {
        let status = side_effect_status(effects[0], source_attack).1;
        assert(side_effect_lands(effects[0], source_attack, c1, s) == side_effect_lands(
            effects[0],
            source_attack,
            c2,
            s,
        ));
        let next = if side_effect_lands(effects[0], source_attack, c1, s) {
            with_status(statuses, status)
        } else {
            statuses
        };
        lemma_side_effects_same_target(
            effects.drop_first(),
            source_attack,
            c1,
            c2,
            next,
            next_state(s),
            source,
            target,
        );
    }
}

/// Every event a spell's side effects raise is a status `source` applied to `target`.
proof fn lemma_side_effect_events_only_statuses(
    effects: Seq<AbilitySideEffect>,
    source_attack: Option<i64>,
    c: BattleCombatant,
    s: u64,
    source: CombatantKey,
    target: CombatantKey,
)
    ensures
        only_statuses_applied(side_effect_events(effects, source_attack, c, s, source, target), 0, source, target),
    decreases effects.len(),
{
    if effects.len() > 0 {
        lemma_side_effect_events_only_statuses(effects.drop_first(), source_attack, c, next_state(s), source, target);
        let rest = side_effect_events(effects.drop_first(), source_attack, c, next_state(s), source, target);
        let all = side_effect_events(effects, source_attack, c, s, source, target);
        if side_effect_lands(effects[0], source_attack, c, s) {
            assert forall|k: int| 0 <= k < all.len() implies (#[trigger] all[k] matches BattleEvent::StatusApplied {
                source: s2,
                target: t,
                ..
            } && s2 == source && t == target) by {
                if k > 0 {
                    assert(all[k] == rest[k - 1]);
                }
            }
        }
    }
}

/// One step further along the generator's sequence.
pub proof fn lemma_advanced_step(s: u64, n: nat)
    ensures
        advanced(s, n + 1) == next_state(advanced(s, n)),
    decreases n,
{
    if n > 0 {
        lemma_advanced_step(next_state(s), (n - 1) as nat);
        assert(advanced(s, n + 1) == advanced(next_state(s), n));
        assert(advanced(s, n) == advanced(next_state(s), (n - 1) as nat));
    } else {
        assert(advanced(s, 1) == advanced(next_state(s), 0));
        assert(advanced(next_state(s), 0) == next_state(s));
        assert(advanced(s, 0) == s);
    }
}

/// Deals spell damage to `target`, then rolls the spell's side effects on it.
pub fn resolve_spell(
    state: &mut BattleState,
    caster_magic_resistance: i64,
    source: CombatantKey,
    target: CombatantKey,
    coefficient: PositiveFinite,
    element: AbilityElement,
    side_effects: &Vec<AbilitySideEffect>,
    rng: &mut GameplayRng,
    events: &mut Vec<BattleEvent>,
)
    requires
        pools_ok(old(state).combatants@),
        first_index_of(old(state).combatants@, target) >= 0,
    ensures
        only_combatants_changed(final(state), old(state)),
        only_health_and_statuses(final(state).combatants@, old(state).combatants@),
        pools_ok(final(state).combatants@),
        ({
            let cs = old(state).combatants@;
            let i = first_index_of(cs, target);
            let amount = spell_damage(
                caster_magic_resistance as int,
                cs[i],
                coefficient.value(),
                element,
            );
            &&& final(state).combatants@[i].health == cs[i].health - amount
            &&& forall|j: int|
                #![auto]
                0 <= j < cs.len() && j != i ==> final(state).combatants@[j].health == cs[j].health
            &&& final(events)@.len() >= old(events)@.len() + 1
            &&& final(events)@.subrange(0, old(events)@.len() as int) == old(events)@
            &&& final(events)@[old(events)@.len() as int] == BattleEvent::MagicDamage {
                source,
                target,
                element,
                amount: amount as u32,
                knocked_out: amount >= cs[i].health,
            }
            &&& only_statuses_applied(final(events)@, old(events)@.len() as int + 1, source, target)
            &&& {
                let struck = BattleCombatant { health: (cs[i].health - amount) as u32, ..cs[i] };
                let woken = if amount > 0 {
                    crate::battle::model::without_effect(cs[i].status_effects@, StatusEffect::Sleep)
                } else {
                    cs[i].status_effects@
                };
                let sa = source_attack_of(cs, source);
                &&& final(state).combatants@ == cs.update(i, final(state).combatants@[i])
                &&& final(state).combatants@[i].status_effects@ == side_effect_statuses(
                    side_effects@,
                    sa,
                    struck,
                    woken,
                    old(rng).spec_state(),
                )
                &&& final(events)@ == old(events)@.push(
                    BattleEvent::MagicDamage {
                        source,
                        target,
                        element,
                        amount: amount as u32,
                        knocked_out: amount >= cs[i].health,
                    },
                ) + side_effect_events(side_effects@, sa, struck, old(rng).spec_state(), source, target)
            }
        }),
        final(rng).spec_state() == advanced(old(rng).spec_state(), side_effects@.len()),
{
    let ghost cs = state.combatants@;
    let ghost e0 = events@;
    proof {
        lemma_first_index_of_bounds(cs, target);
    }
    let i = match state.actor_index(target) {
        Some(i) => i,
        None => {
            proof {
                assert(false);
            }
            return;
        },
    };
    let scaled = scale(caster_magic_resistance, coefficient.get());
    let raw: i128 = scaled as i128 - state.combatants[i].effective_magic_resistance() as i128;
    let base: u32 = if raw < 1 {
        1
    } else {
        #[verifier::truncate]
        (raw as u32)
    };
    let affinity = elemental_affinity(element, state.combatants[i].enemy_type);
    let dealt = state.combatants[i].mitigated_damage(elemental_damage(base, affinity));
    let health = state.combatants[i].health;
    let amount = if dealt <= health {
        dealt
    } else {
        health
    };
    let _ = state.combatants[i].apply_resolved_damage(amount);
    proof {
        assert(state.combatants@ =~= cs.update(i as int, state.combatants@[i as int]));
        assert(raw == scale_i64(caster_magic_resistance as int, coefficient.value() as int)
            - cs[i as int].spec_effective_magic_resistance());
    }
    events.push(
        BattleEvent::MagicDamage { source, target, element, amount, knocked_out: amount >= health },
    );
    let ghost mid = events@;
    let ghost mid_state = state.combatants@;
    let ghost s_mid = rng.spec_state();
    apply_side_effects(state, source, target, side_effects, rng, events);
    proof {
        let ii = i as int;
        assert(mid_state == cs.update(ii, mid_state[ii]));
        assert forall|j: int| 0 <= j < cs.len() implies #[trigger] mid_state[j].key == cs[j].key by {
            if j != ii {
                assert(mid_state[j] == cs[j]);
            }
        }
        lemma_first_index_of_same_keys(mid_state, cs, target);
        lemma_first_index_of_same_keys(mid_state, cs, source);
        lemma_first_index_of_bounds(cs, source);
        if first_index_of(cs, source) >= 0 {
            let si = first_index_of(cs, source);
            if si != ii {
                assert(mid_state[si] == cs[si]);
            }
        }
        assert(source_attack_of(mid_state, source) == source_attack_of(cs, source));
        let struck = BattleCombatant { health: (cs[ii].health - amount) as u32, ..cs[ii] };
        lemma_side_effects_same_target(
            side_effects@,
            source_attack_of(cs, source),
            mid_state[ii],
            struck,
            mid_state[ii].status_effects@,
            s_mid,
            source,
            target,
        );
        assert(state.combatants@ =~= cs.update(ii, state.combatants@[ii])) by {
            assert forall|j: int| 0 <= j < cs.len() && j != ii implies state.combatants@[j] == cs[j] by {
                assert(state.combatants@[j] == mid_state.update(ii, state.combatants@[ii])[j]);
            }
        }
        assert(events@[e0.len() as int] == events@.subrange(0, mid.len() as int)[e0.len() as int]);
        assert(events@.subrange(0, e0.len() as int) =~= e0) by {
            assert forall|k: int| 0 <= k < e0.len() implies events@[k] == e0[k] by {
                assert(events@[k] == events@.subrange(0, mid.len() as int)[k]);
            }
        }
        assert forall|j: int| #![auto] 0 <= j < cs.len() implies state.combatants@[j].same_but_health_and_statuses(&cs[j]) by {
            assert(state.combatants@[j].same_but_health_and_statuses(&mid_state[j]));
        }
    }
}


/// The status a buff leaves on its target.
pub open spec fn spec_buff_status(effect: BuffEffect, source: CombatantKey) -> ActiveStatus {
    match effect {
        BuffEffect::StatModifier(v) => ActiveStatus {
            effect: modifier_effect(v.stat),
            remaining_turns: Some(v.duration_turns),
            potency: StatusPotency::Multiplier(v.modifier.value() as u64),
        },
        BuffEffect::Aggro(v) => ActiveStatus {
            effect: StatusEffect::Taunt,
            remaining_turns: Some(v.duration_turns),
            potency: StatusPotency::Inert,
        },
        BuffEffect::RedirectDamage(v) => ActiveStatus {
            effect: StatusEffect::RedirectDamage,
            remaining_turns: Some(v.duration_turns),
            potency: StatusPotency::Redirect(source),
        },
        BuffEffect::DamageReduction(v) => ActiveStatus {
            effect: StatusEffect::DamageReduction,
            remaining_turns: Some(v.duration_turns),
            potency: StatusPotency::Reduction(v.damage_reduction.value() as u32),
        },
    }
}

/// The status a buff leaves on its target.
pub fn buff_status(effect: &BuffEffect, source: CombatantKey) -> (r: ActiveStatus)
    ensures
        r == spec_buff_status(*effect, source),
{
    match effect {
        BuffEffect::StatModifier(v) => status_from_modifier(v),
        BuffEffect::Aggro(v) => ActiveStatus::timed(StatusEffect::Taunt, v.duration_turns),
        BuffEffect::RedirectDamage(v) => ActiveStatus::redirect(v.duration_turns, source),
        BuffEffect::DamageReduction(v) => ActiveStatus::reduction(
            v.duration_turns,
            v.damage_reduction.get(),
        ),
    }
}

/// Heals or revives `target` and records the result.
pub fn apply_healing(
    state: &mut BattleState,
    caster_magic_resistance: i64,
    source: CombatantKey,
    target: CombatantKey,
    healing: HealingMethod,
    events: &mut Vec<BattleEvent>,
)
    requires
        pools_ok(old(state).combatants@),
        first_index_of(old(state).combatants@, target) >= 0,
    ensures
        only_combatants_changed(final(state), old(state)),
        only_health_and_statuses(final(state).combatants@, old(state).combatants@),
        pools_ok(final(state).combatants@),
        ({
            let cs = old(state).combatants@;
            let i = first_index_of(cs, target);
            let t = cs[i];
            let after = final(state).combatants@[i];
            &&& final(state).combatants@ == cs.update(i, after)
            &&& after.status_effects == t.status_effects
            &&& match healing {
                HealingMethod::Restore { coefficient, max_hp_percent } => {
                    let raw = restore_amount(
                        caster_magic_resistance as int,
                        t,
                        coefficient.value(),
                        match max_hp_percent {
                            Some(p) => Some(p.value()),
                            None => None,
                        },
                    );
                    &&& after.health == if !t.alive() {
                        t.health as int
                    } else if t.health + raw >= t.max_health {
                        t.max_health as int
                    } else {
                        t.health + raw
                    }
                    &&& final(events)@ == old(events)@.push(
                        BattleEvent::Heal {
                            source,
                            target,
                            amount: (after.health - t.health) as u32,
                            revived: false,
                        },
                    )
                },
                HealingMethod::Revive { hp_percent } => {
                    let share = t.max_health as nat * hp_percent.value() / MYRIAD as nat;
                    let restored: nat = if t.alive() || t.max_health == 0 {
                        0
                    } else if share == 0 {
                        1
                    } else if share > t.max_health {
                        t.max_health as nat
                    } else {
                        share
                    };
                    &&& after.health == if restored == 0 {
                        t.health as nat
                    } else {
                        restored
                    }
                    &&& final(events)@ == old(events)@.push(
                        BattleEvent::Heal {
                            source,
                            target,
                            amount: restored as u32,
                            revived: restored > 0,
                        },
                    )
                },
            }
        }),
{
    let ghost cs = state.combatants@;
    proof {
        lemma_first_index_of_bounds(cs, target);
    }
    let i = match state.actor_index(target) {
        Some(i) => i,
        None => {
            proof {
                assert(false);
            }
            return;
        },
    };
    match healing {
        HealingMethod::Restore { coefficient, max_hp_percent } => {
            let raw: u32 = match max_hp_percent {
                Some(p) => {
                    let max = state.combatants[i].max_health as u64;
                    let pv = p.get() as u64;
                    proof {
                        assert(max * pv <= 0xffff_ffff * 10_000) by (nonlinear_arith)
                            requires
                                max <= 0xffff_ffff,
                                pv <= 10_000,
                        ;
                        assert(max * pv / 10_000 <= max) by (nonlinear_arith)
                            requires
                                pv <= 10_000,
                        ;
                    }
                    ((max * pv) / MYRIAD as u64) as u32
                },
                None => {
                    let scaled = scale(caster_magic_resistance, coefficient.get());
                    if scaled < 0 {
                        0
                    } else if scaled > u32::MAX as i64 {
                        u32::MAX
                    } else {
                        scaled as u32
                    }
                },
            };
            let amount = state.combatants[i].apply_heal(raw);
            proof {
                assert(state.combatants@ =~= cs.update(i as int, state.combatants@[i as int]));
            }
            events.push(BattleEvent::Heal { source, target, amount, revived: false });
        },
        HealingMethod::Revive { hp_percent } => {
            let amount = state.combatants[i].revive(hp_percent.get());
            proof {
                assert(state.combatants@ =~= cs.update(i as int, state.combatants@[i as int]));
            }
            events.push(BattleEvent::Heal { source, target, amount, revived: amount > 0 });
        },
    }
}

/// Whether every event after position `from` is a blow or a status from `source`.
pub open spec fn only_blows_from(events: Seq<BattleEvent>, from: int, source: CombatantKey) -> bool {
    forall|k: int|
        from <= k < events.len() ==> match #[trigger] events[k] {
            BattleEvent::Damage { action, .. } => action.spec_attacker() == source,
            BattleEvent::StatusApplied { source: s, .. } => s == source,
            _ => false,
        }
}

/// The combatant that a physical technique aimed at `target` strikes: the target's cover,
/// when it has one that is present and alive, else the target.
pub open spec fn technique_landing(cs: Seq<BattleCombatant>, target: CombatantKey) -> CombatantKey {
    let t = first_index_of(cs, target);
    if t >= 0 {
        match crate::battle::model::first_redirect(cs[t].status_effects@) {
            Some(cover) => {
                let c = first_index_of(cs, cover);
                if c >= 0 && cs[c].alive() {
                    cover
                } else {
                    target
                }
            },
            None => target,
        }
    } else {
        target
    }
}

/// What a defender's health, statuses, the event list and the generator hold between the
/// strikes of a technique.
pub struct StrikeProgress {
    pub health: u32,
    pub statuses: Seq<ActiveStatus>,
    pub events: Seq<BattleEvent>,
    pub rng: u64,
}

/// A critical blow: half again as much, from a triple saturated to `u32`.
pub open spec fn critical_amount(amount: nat) -> nat {
    (if amount * 3 > u32::MAX {
        u32::MAX as nat
    } else {
        amount * 3
    }) / 2
}

/// The blow of one strike before the critical roll: the caster's attack against the
/// defender's defense under `statuses` (at least one), scaled by the technique's coefficient
/// and saturated to `u32`, halved (at least one) for a melee technique from the back row and
/// again against a back-row party defender.
pub open spec fn technique_blow(
    attack: int,
    caster_back: bool,
    technique: PhysicalAbility,
    defender: BattleCombatant,
    statuses: Seq<ActiveStatus>,
) -> nat {
    let m = crate::battle::model::modified(
        defender.defense as int,
        statuses,
        crate::battle::model::defense_effects(),
    );
    let defense = if m < 0 {
        0
    } else {
        m
    };
    let diff = attack - defense;
    let base: nat = if diff < 1 {
        1
    } else {
        (diff as u32) as nat
    };
    let scaled = base * technique.damage_coeff.value() / MYRIAD as nat;
    let capped = if scaled > u32::MAX {
        u32::MAX as nat
    } else {
        scaled
    };
    let after_caster = if technique.attack_range == AttackRange::Melee && caster_back {
        crate::battle::rules::halved(capped)
    } else {
        capped
    };
    if defender.key.side == BattleSide::Party && defender.row == crate::battle::model::PartyRow::Back {
        crate::battle::rules::halved(after_caster)
    } else {
        after_caster
    }
}

/// One strike of a technique by `caster` (whose attack and dexterity were read before the
/// first strike) on `defender` as it now stands in `p`: a critical roll unless the technique
/// is always critical, an instant-kill roll unless the defender is a boss, immune, or the
/// technique has none, then the blow (mitigated, or the whole health on a kill) capped at the
/// defender's health, which wakes it when it lands.
pub open spec fn technique_strike(
    attack: int,
    dexterity: int,
    caster_back: bool,
    technique: PhysicalAbility,
    caster: CombatantKey,
    landed: CombatantKey,
    defender: BattleCombatant,
    p: StrikeProgress,
) -> StrikeProgress {
    let blow = technique_blow(attack, caster_back, technique, defender, p.statuses);
    let guaranteed = technique.guaranteed_crit == Some(true);
    let critical = guaranteed || crate::battle::rules::roll_hits(
        crate::gameplay_rng::output(p.rng),
        crate::battle::rules::spec_critical_hit_chance(dexterity) as nat,
    );
    let s1 = if guaranteed {
        p.rng
    } else {
        next_state(p.rng)
    };
    let amount = if critical {
        critical_amount(blow)
    } else {
        blow
    };
    let may_kill = technique.instant_kill is Some && !defender.boss
        && !defender.immunities@.contains(EnemyImmunity::InstantKill);
    let killed = may_kill && crate::battle::rules::roll_hits(
        crate::gameplay_rng::output(s1),
        technique.instant_kill->0.chance.value(),
    );
    let s2 = if may_kill {
        next_state(s1)
    } else {
        s1
    };
    let taken = if killed {
        p.health as nat
    } else {
        mitigated(amount, p.statuses)
    };
    let dealt: u32 = if taken > p.health {
        p.health
    } else {
        taken as u32
    };
    StrikeProgress {
        health: (p.health - dealt) as u32,
        statuses: if dealt > 0 {
            crate::battle::model::without_effect(p.statuses, StatusEffect::Sleep)
        } else {
            p.statuses
        },
        events: p.events.push(
            BattleEvent::Damage {
                action: BattleAction::Physical { attacker: caster, target: landed },
                amount: dealt,
                critical,
                knocked_out: dealt >= p.health,
            },
        ),
        rng: s2,
    }
}

/// The progress after `n` strikes from `start`: a strike on a defender that is down does
/// nothing.
pub open spec fn technique_strikes(
    attack: int,
    dexterity: int,
    caster_back: bool,
    technique: PhysicalAbility,
    caster: CombatantKey,
    landed: CombatantKey,
    defender: BattleCombatant,
    start: StrikeProgress,
    n: nat,
) -> StrikeProgress
    decreases n,
{
    if n == 0 {
        start
    } else {
        let before = technique_strikes(
            attack,
            dexterity,
            caster_back,
            technique,
            caster,
            landed,
            defender,
            start,
            (n - 1) as nat,
        );
        if before.health == 0 {
            before
        } else {
            technique_strike(attack, dexterity, caster_back, technique, caster, landed, defender, before)
        }
    }
}

/// The number of strikes of a technique.
pub open spec fn strike_count(technique: PhysicalAbility) -> nat {
    match technique.hits {
        Some(h) => h as nat,
        None => 1,
    }
}

/// The progress after all strikes of `technique` by `caster` aimed at `target` in `cs`,
/// starting from `events` and generator state `rng`.
pub open spec fn technique_outcome(
    cs: Seq<BattleCombatant>,
    caster: CombatantKey,
    target: CombatantKey,
    technique: PhysicalAbility,
    events: Seq<BattleEvent>,
    rng: u64,
) -> StrikeProgress {
    let landed = technique_landing(cs, target);
    let d = cs[first_index_of(cs, landed)];
    let src = cs[first_index_of(cs, caster)];
    technique_strikes(
        src.spec_effective_attack(),
        src.dexterity as int,
        src.row == crate::battle::model::PartyRow::Back,
        technique,
        caster,
        landed,
        d,
        StrikeProgress { health: d.health, statuses: d.status_effects@, events, rng },
        strike_count(technique),
    )
}

/// Strikes with a physical technique: the blows land on the target's living cover, if any;
/// each strike stops once the defender is down, may be critical (always, when authored so)
/// and may kill outright (never a boss or an immune enemy); then the technique's modifier is
/// applied.
pub fn resolve_physical_ability(
    state: &mut BattleState,
    caster: CombatantKey,
    target: CombatantKey,
    technique: PhysicalAbility,
    rng: &mut GameplayRng,
    events: &mut Vec<BattleEvent>,
)
    requires
        pools_ok(old(state).combatants@),
        first_index_of(old(state).combatants@, caster) >= 0,
        first_index_of(old(state).combatants@, target) >= 0,
    ensures
        only_combatants_changed(final(state), old(state)),
        only_health_and_statuses(final(state).combatants@, old(state).combatants@),
        pools_ok(final(state).combatants@),
        final(events)@.len() >= old(events)@.len(),
        final(events)@.subrange(0, old(events)@.len() as int) == old(events)@,
        only_blows_from(final(events)@, old(events)@.len() as int, caster),
        ({
            let cs = old(state).combatants@;
            let landed = technique_landing(cs, target);
            let di = first_index_of(cs, landed);
            let done = technique_outcome(cs, caster, target, technique, old(events)@, old(rng).spec_state());
            let status = modifier_status(technique.effect->0);
            let lands = technique.effect is Some && done.health > 0 && !(cs[di].enemy_type == Some(
                EnemyType::Construct,
            ) && status.effect.spec_is_harmful());
            &&& 0 <= di < cs.len()
            &&& final(rng).spec_state() == done.rng
            &&& forall|j: int|
                0 <= j < cs.len() && j != di ==> #[trigger] final(state).combatants@[j] == cs[j]
            &&& final(state).combatants@[di].health == done.health
            &&& final(state).combatants@[di].status_effects@ == if lands {
                with_status(done.statuses, status)
            } else {
                done.statuses
            }
            &&& final(events)@ == if lands {
                done.events.push(BattleEvent::StatusApplied { source: caster, target: landed, status })
            } else {
                done.events
            }
        }),
{
    let ghost st0 = *state;
    let ghost cs = state.combatants@;
    let ghost e0 = events@;
    let ghost s0 = rng.spec_state();
    proof {
        lemma_first_index_of_bounds(cs, target);
        lemma_first_index_of_bounds(cs, caster);
    }
    let landed = match state.actor_index(target) {
        Some(t) => match state.combatants[t].redirected_target() {
            Some(cover) => match state.actor_index(cover) {
                Some(c) => if state.combatants[c].is_alive() {
                    cover
                } else {
                    target
                },
                None => target,
            },
            None => target,
        },
        None => target,
    };
    let ci = match state.actor_index(caster) {
        Some(ci) => ci,
        None => {
            proof {
                assert(false);
            }
            return;
        },
    };
    let di = match state.actor_index(landed) {
        Some(di) => di,
        None => {
            proof {
                assert(false);
            }
            return;
        },
    };
    proof {
        lemma_first_index_of_bounds(cs, landed);
    }
    let attack = state.combatants[ci].effective_attack();
    let dexterity = state.combatants[ci].dexterity;
    let caster_back = state.combatants[ci].row == crate::battle::model::PartyRow::Back;
    let ghost defender = cs[di as int];
    let ghost start = StrikeProgress {
        health: defender.health,
        statuses: defender.status_effects@,
        events: e0,
        rng: s0,
    };
    let hits: u32 = match technique.hits {
        Some(h) => h,
        None => 1,
    };
    let mut strike: u32 = 0;
    while strike < hits
        invariant
            only_combatants_changed(state, &st0),
            only_health_and_statuses(state.combatants@, st0.combatants@),
            pools_ok(state.combatants@),
            cs == st0.combatants@,
            ci < cs.len(),
            di < cs.len(),
            defender == cs[di as int],
            strike <= hits,
            events@.len() >= e0.len(),
            events@.subrange(0, e0.len() as int) == e0,
            only_blows_from(events@, e0.len() as int, caster),
            forall|j: int| 0 <= j < cs.len() && j != di ==> #[trigger] state.combatants@[j] == cs[j],
            ({
                let p = technique_strikes(
                    attack as int,
                    dexterity as int,
                    caster_back,
                    technique,
                    caster,
                    landed,
                    defender,
                    start,
                    strike as nat,
                );
                &&& state.combatants@[di as int].health == p.health
                &&& state.combatants@[di as int].status_effects@ == p.statuses
                &&& events@ == p.events
                &&& rng.spec_state() == p.rng
            }),
        decreases hits - strike,
    {
        let ghost p = technique_strikes(
            attack as int,
            dexterity as int,
            caster_back,
            technique,
            caster,
            landed,
            defender,
            start,
            strike as nat,
        );
        if !state.combatants[di].is_alive() {
            strike = strike + 1;
            continue;
        }
        let defense = state.combatants[di].effective_defense();
        let diff: i128 = attack as i128 - defense as i128;
        let base: u32 = if diff < 1 {
            1
        } else {
            #[verifier::truncate]
            (diff as u32)
        };
        let coefficient = technique.damage_coeff.get();
        proof {
            assert((base as nat) * (coefficient as nat) <= 0xffff_ffff * 0xffff_ffff_ffff_ffff)
                by (nonlinear_arith)
                requires
                    base <= 0xffff_ffff,
                    coefficient <= 0xffff_ffff_ffff_ffff,
            ;
        }
        let product: u128 = base as u128 * coefficient as u128;
        let scaled: u128 = product / MYRIAD as u128;
        let mut amount: u32 = if scaled > u32::MAX as u128 {
            u32::MAX
        } else {
            scaled as u32
        };
        if technique.attack_range == AttackRange::Melee && caster_back {
            amount = if amount / 2 == 0 {
                1
            } else {
                amount / 2
            };
        }
        if state.combatants[di].key.side == BattleSide::Party && state.combatants[di].row
            == crate::battle::model::PartyRow::Back {
            amount = if amount / 2 == 0 {
                1
            } else {
                amount / 2
            };
        }
        proof {
            assert(amount as nat == technique_blow(attack as int, caster_back, technique, defender, p.statuses));
        }
        let guaranteed = match technique.guaranteed_crit {
            Some(true) => true,
            _ => false,
        };
        let critical = guaranteed || roll_succeeds(rng, critical_hit_chance(dexterity));
        if critical {
            amount = critical_damage(amount);
        }
        let health = state.combatants[di].health;
        let killed = match technique.instant_kill {
            Some(kill) => {
                !state.combatants[di].boss && !immune_to_instant_kill(&state.combatants[di].immunities)
                    && roll_succeeds(rng, kill.chance.get())
            },
            None => false,
        };
        amount = if killed {
            health
        } else {
            state.combatants[di].mitigated_damage(amount)
        };
        if amount > health {
            amount = health;
        }
        let ghost before = state.combatants@;
        let _ = state.combatants[di].apply_resolved_damage(amount);
        proof {
            assert(state.combatants@ =~= before.update(di as int, state.combatants@[di as int]));
            assert forall|j: int| #![auto] 0 <= j < state.combatants@.len() implies state.combatants@[j].same_but_health_and_statuses(&st0.combatants@[j]) && state.combatants@[j].pools_in_range() by {
                if j != di {
                    assert(state.combatants@[j] == before[j]);
                }
            }
        }
        let ghost events_before = events@;
        events.push(
            BattleEvent::Damage {
                action: BattleAction::Physical { attacker: caster, target: landed },
                amount,
                critical,
                knocked_out: amount >= health,
            },
        );
        proof {
            assert(events@.subrange(0, e0.len() as int) =~= e0) by {
                assert forall|k: int| 0 <= k < e0.len() implies events@[k] == e0[k] by {
                    assert(events@[k] == events_before[k]);
                    assert(events_before[k] == events_before.subrange(0, e0.len() as int)[k]);
                }
            }
        }
        strike = strike + 1;
    }
    if let Some(effect) = technique.effect {
        let status = status_from_modifier(&effect);
        let ghost before = *state;
        let ghost events_before = events@;
        proof {
            lemma_first_index_of_same_keys(before.combatants@, cs, landed);
        }
        apply_status(state, caster, landed, status, events);
        proof {
            assert(events@.subrange(0, e0.len() as int) =~= e0) by {
                assert forall|k: int| 0 <= k < e0.len() implies events@[k] == e0[k] by {
                    assert(events@[k] == events_before[k]);
                    assert(events_before[k] == events_before.subrange(0, e0.len() as int)[k]);
                }
            }
            assert forall|j: int| #![auto] 0 <= j < state.combatants@.len() implies state.combatants@[j].same_but_health_and_statuses(&st0.combatants@[j]) by {
                assert(state.combatants@[j].same_but_health_and_statuses(&before.combatants@[j]));
            }
        }
    }
}

/// The status a technique's modifier leaves on the struck combatant.
pub open spec fn modifier_status(effect: StatModifierEffect) -> ActiveStatus {
    ActiveStatus {
        effect: modifier_effect(effect.stat),
        remaining_turns: Some(effect.duration_turns),
        potency: StatusPotency::Multiplier(effect.modifier.value() as u64),
    }
}


/// Whether an enemy is immune to instant kills.
pub fn immune_to_instant_kill(immunities: &Vec<EnemyImmunity>) -> (r: bool)
    ensures
        r == immunities@.contains(EnemyImmunity::InstantKill),
{
    let mut i: usize = 0;
    while i < immunities.len()
        invariant
            i <= immunities@.len(),
            forall|k: int| 0 <= k < i ==> immunities@[k] != EnemyImmunity::InstantKill,
        decreases immunities.len() - i,
    {
        if immunities[i] == EnemyImmunity::InstantKill {
            return true;
        }
        i = i + 1;
    }
    false
}


/// A transcript label for a target: `Side:index`.
pub open spec fn target_label(k: CombatantKey) -> Seq<char> {
    side_name(k.side) + ":"@ + decimal(k.index as nat)
}

/// The targets' labels joined by commas.
pub open spec fn target_list(ts: Seq<CombatantKey>) -> Seq<char>
    decreases ts.len(),
{
    if ts.len() == 0 {
        Seq::empty()
    } else if ts.len() == 1 {
        target_label(ts[0])
    } else {
        target_list(ts.drop_last()) + ","@ + target_label(ts.last())
    }
}

/// The transcript line recorded for a cast.
pub open spec fn ability_line(caster_id: Seq<char>, ability_id: Seq<char>, ts: Seq<CombatantKey>) -> Seq<char> {
    "ABILITY "@ + caster_id + " "@ + ability_id + " "@ + target_list(ts)
}

/// The targets' labels joined by commas.
pub fn target_list_text(ts: &[CombatantKey]) -> (r: String)
    ensures
        r@ == target_list(ts@),
{
    let mut out = String::new();
    let mut i: usize = 0;
    while i < ts.len()
        invariant
            i <= ts@.len(),
            out@ == target_list(ts@.take(i as int)),
        decreases ts.len() - i,
    {
        let k = ts[i];
        if i > 0 {
            out.append(",");
        }
        out.append(side_label(k.side));
        out.append(":");
        let index = decimal_string(k.index as u64);
        out.append(index.as_str());
        proof {
            assert(ts@.take(i + 1).drop_last() =~= ts@.take(i as int));
            if i == 0 {
                assert(ts@.take(0) =~= Seq::<CombatantKey>::empty());
                assert(out@ =~= target_label(ts@.take(1)[0]));
            }
        }
        i = i + 1;
    }
    assert(ts@.take(ts@.len() as int) =~= ts@);
    out
}

/// The combatants, events and generator state between the targets of a cast.
pub struct CastSnapshot {
    pub combatants: Seq<BattleCombatant>,
    pub events: Seq<BattleEvent>,
    pub rng: u64,
}

/// A technique's strikes on `target` and its modifier, taking `b` to `a`.
pub open spec fn technique_step(
    technique: PhysicalAbility,
    caster: CombatantKey,
    target: CombatantKey,
    b: CastSnapshot,
    a: CastSnapshot,
) -> bool {
    let cs = b.combatants;
    let landed = technique_landing(cs, target);
    let di = first_index_of(cs, landed);
    let done = technique_outcome(cs, caster, target, technique, b.events, b.rng);
    let status = modifier_status(technique.effect->0);
    let lands = technique.effect is Some && done.health > 0 && !(cs[di].enemy_type == Some(
        EnemyType::Construct,
    ) && status.effect.spec_is_harmful());
    &&& 0 <= di < cs.len()
    &&& a.rng == done.rng
    &&& forall|j: int| 0 <= j < cs.len() && j != di ==> #[trigger] a.combatants[j] == cs[j]
    &&& a.combatants[di].health == done.health
    &&& a.combatants[di].status_effects@ == if lands {
        with_status(done.statuses, status)
    } else {
        done.statuses
    }
    &&& a.events == if lands {
        done.events.push(BattleEvent::StatusApplied { source: caster, target: landed, status })
    } else {
        done.events
    }
}

/// A spell's damage on `target` and its side effects, taking `b` to `a`.
pub open spec fn spell_step(
    spell: SpellAbility,
    caster_magic_resistance: i64,
    caster: CombatantKey,
    target: CombatantKey,
    b: CastSnapshot,
    a: CastSnapshot,
) -> bool {
    let cs = b.combatants;
    let i = first_index_of(cs, target);
    let amount = spell_damage(caster_magic_resistance as int, cs[i], spell.spell_coeff.value(), spell.element);
    let struck = BattleCombatant { health: (cs[i].health - amount) as u32, ..cs[i] };
    let woken = if amount > 0 {
        crate::battle::model::without_effect(cs[i].status_effects@, StatusEffect::Sleep)
    } else {
        cs[i].status_effects@
    };
    let sa = source_attack_of(cs, caster);
    &&& a.combatants == cs.update(i, a.combatants[i])
    &&& a.combatants[i].health == cs[i].health - amount
    &&& a.combatants[i].status_effects@ == side_effect_statuses(
        spell.side_effects@,
        sa,
        struck,
        woken,
        b.rng,
    )
    &&& a.events == b.events.push(
        BattleEvent::MagicDamage {
            source: caster,
            target,
            element: spell.element,
            amount: amount as u32,
            knocked_out: amount >= cs[i].health,
        },
    ) + side_effect_events(spell.side_effects@, sa, struck, b.rng, caster, target)
    &&& a.rng == advanced(b.rng, spell.side_effects@.len())
}

/// Healing or revival of `target`, taking `b` to `a`.
pub open spec fn healing_step(
    healing: HealingMethod,
    caster_magic_resistance: i64,
    caster: CombatantKey,
    target: CombatantKey,
    b: CastSnapshot,
    a: CastSnapshot,
) -> bool {
    let cs = b.combatants;
    let i = first_index_of(cs, target);
    let t = cs[i];
    let after = a.combatants[i];
    &&& a.combatants == cs.update(i, after)
    &&& after.status_effects == t.status_effects
    &&& a.rng == b.rng
    &&& match healing {
        HealingMethod::Restore { coefficient, max_hp_percent } => {
            let raw = restore_amount(
                caster_magic_resistance as int,
                t,
                coefficient.value(),
                match max_hp_percent {
                    Some(p) => Some(p.value()),
                    None => None,
                },
            );
            &&& after.health == if !t.alive() {
                t.health as int
            } else if t.health + raw >= t.max_health {
                t.max_health as int
            } else {
                t.health + raw
            }
            &&& a.events == b.events.push(
                BattleEvent::Heal {
                    source: caster,
                    target,
                    amount: (after.health - t.health) as u32,
                    revived: false,
                },
            )
        },
        HealingMethod::Revive { hp_percent } => {
            let share = t.max_health as nat * hp_percent.value() / MYRIAD as nat;
            let restored: nat = if t.alive() || t.max_health == 0 {
                0
            } else if share == 0 {
                1
            } else if share > t.max_health {
                t.max_health as nat
            } else {
                share
            };
            &&& after.health == if restored == 0 {
                t.health as nat
            } else {
                restored
            }
            &&& a.events == b.events.push(
                BattleEvent::Heal { source: caster, target, amount: restored as u32, revived: restored > 0 },
            )
        },
    }
}

/// `status` put on `target` when it lands, taking `b` to `a`.
pub open spec fn status_step(
    status: ActiveStatus,
    caster: CombatantKey,
    target: CombatantKey,
    b: CastSnapshot,
    a: CastSnapshot,
) -> bool {
    let cs = b.combatants;
    let i = first_index_of(cs, target);
    &&& a.rng == b.rng
    &&& if i >= 0 && status_lands(cs[i], status) {
        &&& a.combatants == cs.update(i, a.combatants[i])
        &&& a.combatants[i].health == cs[i].health
        &&& a.combatants[i].status_effects@ == with_status(cs[i].status_effects@, status)
        &&& a.events == b.events.push(BattleEvent::StatusApplied { source: caster, target, status })
    } else {
        &&& a.combatants == cs
        &&& a.events == b.events
    }
}

/// Every status of `target` cured, taking `b` to `a`; the cure is recorded when there was
/// something to cure.
pub open spec fn cure_step(caster: CombatantKey, target: CombatantKey, b: CastSnapshot, a: CastSnapshot) -> bool {
    let cs = b.combatants;
    let i = first_index_of(cs, target);
    &&& a.rng == b.rng
    &&& a.combatants == cs.update(i, a.combatants[i])
    &&& a.combatants[i].health == cs[i].health
    &&& a.combatants[i].status_effects@.len() == 0
    &&& a.events == if cs[i].status_effects@.len() > 0 {
        b.events.push(BattleEvent::StatusCured { source: caster, target, effect: None })
    } else {
        b.events
    }
}

/// What a cast of an ability of `kind` by `caster` (whose magic resistance is
/// `caster_magic_resistance`) does to one `target`, taking `b` to `a`: every combatant keeps
/// all but its health and statuses, which the step of the ability's kind fixes.
pub open spec fn cast_step(
    kind: AbilityKind,
    caster: CombatantKey,
    caster_magic_resistance: i64,
    target: CombatantKey,
    b: CastSnapshot,
    a: CastSnapshot,
) -> bool {
    &&& only_health_and_statuses(a.combatants, b.combatants)
    &&& match kind {
        AbilityKind::Physical(p) => technique_step(p, caster, target, b, a),
        AbilityKind::Spell(v) => spell_step(v, caster_magic_resistance, caster, target, b, a),
        AbilityKind::Heal(v) => healing_step(v.healing, caster_magic_resistance, caster, target, b, a),
        AbilityKind::Buff(v) => status_step(spec_buff_status(v.effect, caster), caster, target, b, a),
        AbilityKind::Debuff(v) => status_step(modifier_status(v.effect), caster, target, b, a),
        AbilityKind::Utility(_) => cure_step(caster, target, b, a),
    }
}

/// Whether `trace` runs a cast over `targets` in order: one snapshot before each target and
/// one after the last, each taken to the next by the cast's step on that target.
pub open spec fn cast_trace(
    kind: AbilityKind,
    caster: CombatantKey,
    caster_magic_resistance: i64,
    targets: Seq<CombatantKey>,
    trace: Seq<CastSnapshot>,
) -> bool {
    &&& trace.len() == targets.len() + 1
    &&& forall|t: int|
        0 <= t < targets.len() ==> cast_step(
            kind,
            caster,
            caster_magic_resistance,
            #[trigger] targets[t],
            trace[t],
            trace[t + 1],
        )
}

/// What a cast does to each target, copied out of the ability.
enum CastEffect {
    Physical(PhysicalAbility),
    Spell { coefficient: PositiveFinite, element: AbilityElement, side_effects: Vec<AbilitySideEffect> },
    Heal(HealingMethod),
    Status(ActiveStatus),
    RemoveStatus,
}

/// Why a cast of ability `index` by the combatant `caster` at `targets` is refused, checked in
/// order: no such caster, no such ability, an ability that cannot be cast in battle, a
/// silenced caster, targets that do not fit the ability's plan, too little mana.
pub open spec fn cast_refusal(
    cs: Seq<BattleCombatant>,
    caster: CombatantKey,
    index: int,
    targets: Seq<CombatantKey>,
) -> Option<AbilityError> {
    let ci = first_index_of(cs, caster);
    if ci < 0 {
        Some(AbilityError::UnknownCaster)
    } else if index >= cs[ci].abilities@.len() {
        Some(AbilityError::UnknownAbility)
    } else {
        let c = cs[ci];
        let a = c.abilities@[index];
        if !spec_battle_ability(a) {
            Some(AbilityError::Unsupported)
        } else if crate::battle::model::carries(c.status_effects@, StatusEffect::Silence) {
            Some(AbilityError::Silenced)
        } else if targets.len() == 0 || !spec_targets_match(cs, caster, a, targets) {
            Some(AbilityError::InvalidTarget)
        } else if c.mana < a.mp_cost {
            Some(AbilityError::InsufficientMana)
        } else {
            None
        }
    }
}

/// What an accepted cast of ability `index` of `caster` at `targets` does, from `before` to
/// `after`, the generator from state `s0` to `s1`: the caster pays the mana once, each target
/// in turn receives the cast's step, the events raised are queued for feedback, the cast is
/// narrated and recorded, and the phase becomes `Resolve`.
pub open spec fn cast_resolved(
    before: BattleState,
    after: BattleState,
    caster: CombatantKey,
    index: int,
    targets: Seq<CombatantKey>,
    s0: u64,
    s1: u64,
) -> bool {
    let cs = before.combatants@;
    let ci = first_index_of(cs, caster);
    let c = cs[ci];
    let a = c.abilities@[index];
    let paid = cs.update(ci, BattleCombatant { mana: (c.mana - a.mp_cost) as u32, ..c });
    &&& after.phase == BattlePhase::Resolve
    &&& after.message@ == c.name@ + " uses "@ + a.name@ + "!"@
    &&& after.transcript@ == before.transcript@.push(after.transcript@.last())
    &&& after.transcript@.last()@ == ability_line(c.id@, a.id@, targets)
    &&& after.same_bookkeeping(&before)
    &&& only_health_and_statuses(after.combatants@, paid)
    &&& exists|trace: Seq<CastSnapshot>|
        #[trigger] cast_trace(a.kind, caster, c.magic_resistance, targets, trace)
            && trace[0] == (CastSnapshot { combatants: paid, events: Seq::empty(), rng: s0 })
            && trace.last() == (CastSnapshot {
            combatants: after.combatants@,
            events: trace.last().events,
            rng: s1,
        }) && after.feedback_events@ == before.feedback_events@ + trace.last().events
}

/// Casts ability `ability_index` of `caster_key` at `targets`. A refused cast changes
/// nothing. Otherwise the caster pays the mana once, each target in turn receives the effect
/// (a technique's strikes, a spell's damage and side effects, healing or revival, a status,
/// or a cure), the events are queued for feedback, the cast is narrated and recorded, and the
/// phase becomes `Resolve`. Only health, statuses and the caster's mana change.
pub fn resolve_ability(
    state: &mut BattleState,
    caster_key: CombatantKey,
    ability_index: usize,
    targets: &[CombatantKey],
    rng: &mut GameplayRng,
) -> (r: Result<Vec<BattleEvent>, AbilityError>)
    requires
        pools_ok(old(state).combatants@),
    ensures
        pools_ok(final(state).combatants@),
        match cast_refusal(old(state).combatants@, caster_key, ability_index as int, targets@) {
            Some(e) => r == Err::<Vec<BattleEvent>, AbilityError>(e) && *final(state) == *old(
                state,
            ) && *final(rng) == *old(rng),
            None => r is Ok,
        },
        r matches Ok(events) ==> {
            let cs = old(state).combatants@;
            let ci = first_index_of(cs, caster_key);
            let c = cs[ci];
            let a = c.abilities@[ability_index as int];
            &&& final(state).phase == BattlePhase::Resolve
            &&& final(state).feedback_events@ == old(state).feedback_events@ + events@
            &&& final(state).message@ == c.name@ + " uses "@ + a.name@ + "!"@
            &&& final(state).transcript@ == old(state).transcript@.push(
                final(state).transcript@.last(),
            )
            &&& final(state).transcript@.last()@ == ability_line(c.id@, a.id@, targets@)
            &&& final(state).same_bookkeeping(old(state))
            &&& only_health_and_statuses(
                final(state).combatants@,
                cs.update(ci, BattleCombatant { mana: (c.mana - a.mp_cost) as u32, ..c }),
            )
            &&& cast_resolved(
                *old(state),
                *final(state),
                caster_key,
                ability_index as int,
                targets@,
                old(rng).spec_state(),
                final(rng).spec_state(),
            )
            &&& exists|trace: Seq<CastSnapshot>|
                #[trigger] cast_trace(a.kind, caster_key, c.magic_resistance, targets@, trace)
                    && trace[0] == (CastSnapshot {
                    combatants: cs.update(ci, BattleCombatant { mana: (c.mana - a.mp_cost) as u32, ..c }),
                    events: Seq::empty(),
                    rng: old(rng).spec_state(),
                }) && trace.last() == (CastSnapshot {
                    combatants: final(state).combatants@,
                    events: events@,
                    rng: final(rng).spec_state(),
                })
        },
{
    let ghost cs = state.combatants@;
    proof {
        lemma_first_index_of_bounds(cs, caster_key);
    }
    let ci = match state.actor_index(caster_key) {
        Some(ci) => ci,
        None => return Err(AbilityError::UnknownCaster),
    };
    if ability_index >= state.combatants[ci].abilities.len() {
        return Err(AbilityError::UnknownAbility);
    }
    let ability = &state.combatants[ci].abilities[ability_index];
    if !battle_ability(ability) {
        return Err(AbilityError::Unsupported);
    }
    if state.combatants[ci].is_silenced() {
        return Err(AbilityError::Silenced);
    }
    if targets.len() == 0 || !targets_match_plan(state, caster_key, ability, targets) {
        return Err(AbilityError::InvalidTarget);
    }
    let cost = ability.mp_cost;
    let ability_name = ability.name.clone();
    let ability_id = ability.id.clone();
    let caster_name = state.combatants[ci].name.clone();
    let caster_id = state.combatants[ci].id.clone();
    let caster_resistance = state.combatants[ci].magic_resistance;
    let cast = match &ability.kind {
        AbilityKind::Physical(v) => CastEffect::Physical(*v),
        AbilityKind::Spell(v) => CastEffect::Spell {
            coefficient: v.spell_coeff,
            element: v.element,
            side_effects: v.side_effects.clone(),
        },
        AbilityKind::Heal(v) => CastEffect::Heal(v.healing),
        AbilityKind::Buff(v) => CastEffect::Status(buff_status(&v.effect, caster_key)),
        AbilityKind::Debuff(v) => CastEffect::Status(status_from_modifier(&v.effect)),
        AbilityKind::Utility(_) => CastEffect::RemoveStatus,
    };
    let ghost a = cs[ci as int].abilities@[ability_index as int];
    proof {
        // Every target names a combatant.
        assert forall|t: int| 0 <= t < targets@.len() implies first_index_of(
            cs,
            #[trigger] targets@[t],
        ) >= 0 by {
            match spec_target_plan(a) {
                AbilityTargetPlan::All { side, ko_eligible } => {
                    lemma_eligible_keys_present(cs, side, ko_eligible, t);
                },
                _ => {},
            }
        }
    }
    if state.combatants[ci].mana < cost {
        return Err(AbilityError::InsufficientMana);
    }
    let _ = state.combatants[ci].spend_mana(cost);
    let ghost paid = *state;
    proof {
        assert(state.combatants@ =~= cs.update(
            ci as int,
            BattleCombatant { mana: (cs[ci as int].mana - a.mp_cost) as u32, ..cs[ci as int] },
        ));
        assert forall|j: int| 0 <= j < cs.len() implies #[trigger] state.combatants@[j].key
            == cs[j].key by {}
        assert(pools_ok(state.combatants@));
    }
    let mut events: Vec<BattleEvent> = Vec::new();
    let mut t: usize = 0;
    let ghost start = CastSnapshot { combatants: state.combatants@, events: events@, rng: rng.spec_state() };
    let ghost mut trace: Seq<CastSnapshot> = seq![start];
    while t < targets.len()
        invariant
            t <= targets@.len(),
            trace.len() == t + 1,
            trace[0] == start,
            start.combatants == paid.combatants@,
            start.events == Seq::<BattleEvent>::empty(),
            trace.last() == (CastSnapshot { combatants: state.combatants@, events: events@, rng: rng.spec_state() }),
            forall|k: int|
                0 <= k < t ==> cast_step(
                    a.kind,
                    caster_key,
                    caster_resistance,
                    #[trigger] targets@[k],
                    trace[k],
                    trace[k + 1],
                ),
            caster_resistance == cs[ci as int].magic_resistance,
            match a.kind {
                AbilityKind::Physical(p) => cast matches CastEffect::Physical(q) && q == p,
                AbilityKind::Spell(v) => cast matches CastEffect::Spell { coefficient, element, side_effects }
                    && coefficient == v.spell_coeff && element == v.element && side_effects@
                    == v.side_effects@,
                AbilityKind::Heal(v) => cast matches CastEffect::Heal(h) && h == v.healing,
                AbilityKind::Buff(v) => cast matches CastEffect::Status(st) && st == spec_buff_status(
                    v.effect,
                    caster_key,
                ),
                AbilityKind::Debuff(v) => cast matches CastEffect::Status(st) && st == modifier_status(
                    v.effect,
                ),
                AbilityKind::Utility(_) => cast matches CastEffect::RemoveStatus,
            },
            only_combatants_changed(state, &paid),
            only_health_and_statuses(state.combatants@, paid.combatants@),
            pools_ok(state.combatants@),
            paid.combatants@.len() == cs.len(),
            forall|j: int| 0 <= j < cs.len() ==> #[trigger] paid.combatants@[j].key == cs[j].key,
            forall|k: int| 0 <= k < targets@.len() ==> first_index_of(cs, #[trigger] targets@[k])
                >= 0,
            first_index_of(cs, caster_key) >= 0,
        decreases targets.len() - t,
    {
        let target = targets[t];
        let ghost before = *state;
        proof {
            assert forall|j: int| 0 <= j < cs.len() implies #[trigger] state.combatants@[j].key
                == cs[j].key by {
                assert(state.combatants@[j].same_but_health_and_statuses(&paid.combatants@[j]));
            }
            lemma_first_index_of_same_keys(state.combatants@, cs, target);
            lemma_first_index_of_same_keys(state.combatants@, cs, caster_key);
            assert(first_index_of(cs, targets@[t as int]) >= 0);
        }
        match &cast {
            CastEffect::Physical(p) => {
                resolve_physical_ability(state, caster_key, target, *p, rng, &mut events);
            },
            CastEffect::Spell { coefficient, element, side_effects } => {
                resolve_spell(
                    state,
                    caster_resistance,
                    caster_key,
                    target,
                    *coefficient,
                    *element,
                    side_effects,
                    rng,
                    &mut events,
                );
            },
            CastEffect::Heal(h) => {
                apply_healing(state, caster_resistance, caster_key, target, *h, &mut events);
            },
            CastEffect::Status(status) => {
                apply_status(state, caster_key, target, *status, &mut events);
            },
            CastEffect::RemoveStatus => {
                proof {
                    lemma_first_index_of_bounds(state.combatants@, target);
                }
                match state.actor_index(target) {
                    Some(ti) => {
                        let ghost inner = state.combatants@;
                        let cleared = state.combatants[ti].clear_statuses();
                        proof {
                            assert(state.combatants@ =~= inner.update(ti as int, state.combatants@[ti as int]));
                        }
                        if cleared > 0 {
                            events.push(
                                BattleEvent::StatusCured { source: caster_key, target, effect: None },
                            );
                        }
                    },
                    None => {},
                }
            },
        }
        proof {
            assert forall|j: int| #![auto] 0 <= j < state.combatants@.len() implies state.combatants@[j].same_but_health_and_statuses(&paid.combatants@[j]) by {
                assert(state.combatants@[j].same_but_health_and_statuses(&before.combatants@[j]));
            }
            let next = CastSnapshot { combatants: state.combatants@, events: events@, rng: rng.spec_state() };
            assert(cast_step(a.kind, caster_key, caster_resistance, target, trace.last(), next));
            let old_trace = trace;
            trace = trace.push(next);
            assert forall|k: int|
                0 <= k < t + 1 implies cast_step(
                    a.kind,
                    caster_key,
                    caster_resistance,
                    #[trigger] targets@[k],
                    trace[k],
                    trace[k + 1],
                ) by {
                if k < t {
                    assert(trace[k] == old_trace[k] && trace[k + 1] == old_trace[k + 1]);
                }
            }
        }
        t = t + 1;
    }
    let mut k: usize = 0;
    let ghost fb0 = state.feedback_events@;
    while k < events.len()
        invariant
            k <= events@.len(),
            state.feedback_events@ == fb0 + events@.take(k as int),
            only_health_and_statuses(state.combatants@, paid.combatants@),
            pools_ok(state.combatants@),
            state.same_bookkeeping(&paid),
            state.message == paid.message,
            state.transcript == paid.transcript,
            state.combatants@ == trace.last().combatants,
        decreases events.len() - k,
    {
        state.feedback_events.push(events[k]);
        assert(events@.take(k + 1) =~= events@.take(k as int).push(events@[k as int]));
        k = k + 1;
    }
    assert(events@.take(events@.len() as int) =~= events@);
    state.message = concat4(caster_name.as_str(), " uses ", ability_name.as_str(), "!");
    let mut line = concat4("ABILITY ", caster_id.as_str(), " ", ability_id.as_str());
    line.append(" ");
    let list = target_list_text(targets);
    line.append(list.as_str());
    state.transcript.push(line);
    state.phase = BattlePhase::Resolve;
    proof {
        assert forall|j: int| #![auto] 0 <= j < state.combatants@.len() implies state.combatants@[j].same_but_health_and_statuses(&cs.update(
            ci as int,
            BattleCombatant { mana: (cs[ci as int].mana - a.mp_cost) as u32, ..cs[ci as int] },
        )[j]) by {
            assert(state.combatants@[j].same_but_health_and_statuses(&paid.combatants@[j]));
        }
        assert(cast_trace(a.kind, caster_key, cs[ci as int].magic_resistance, targets@, trace));
    }
    Ok(events)
}

} // verus!
