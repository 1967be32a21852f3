//! How an enemy chooses its move and its targets, and what its abilities do.

use vstd::prelude::*;

use crate::battle::ability::{only_combatants_changed, only_health_and_statuses, pools_ok, target_list, target_list_text};
use crate::battle::action::BattleEvent;
use crate::battle::model::{
    eligible_keys, BattleCombatant, BattlePhase, BattleSide, BattleState, CombatantKey,
};
use crate::battle::resolver::{first_index_of, lemma_first_index_of_bounds, side_defeated};
use crate::text::concat4;
use crate::gameplay_rng::{next_state, output, GameplayRng};
use crate::scenario_class::MYRIAD;
use crate::scenario_enemy::{
    EnemyAiPattern, EnemyBehavior, EnemyDefaultTarget, EnemyMove, EnemyMoveCondition,
    EnemyOverrideTarget, EnemyTargetOverride,
};
use crate::battle::rewards::{capitalized, join_push, joined};
use crate::battle::status::{ActiveStatus, StatusEffect, StatusPotency};
use crate::scenario_enemy::{AbilityHitOutcome, AccessoryBlockedTargetOverride};
use crate::text::{
    index_of_char, lemma_index_of_char_at, lemma_index_of_char_bounds, str_equals, uppercase_of,
};

verus! {

/// What an enemy does on its turn.
#[derive(Clone, Debug, PartialEq, Eq)]
pub enum EnemyAction {
    Attack,
    Ability { id: String, once: bool },
}

/// A move's weight.
pub open spec fn spec_move_weight(m: EnemyMove) -> nat {
    match m {
        EnemyMove::Attack { weight, .. } => weight.value(),
        EnemyMove::Ability { weight, .. } => weight.value(),
    }
}

/// A move's weight.
pub fn move_weight(m: &EnemyMove) -> (r: u32)
    ensures
        r == spec_move_weight(*m),
{
    match m {
        EnemyMove::Attack { weight, .. } => weight.get(),
        EnemyMove::Ability { weight, .. } => weight.get(),
    }
}

/// Whether the once-per-battle moves already spent include `enemy`'s ability `id`.
pub open spec fn spent(used: Seq<(CombatantKey, String)>, enemy: CombatantKey, id: Seq<char>) -> bool {
    exists|i: int| 0 <= i < used.len() && used[i].0 == enemy && (#[trigger] used[i]).1@ == id
}

/// Whether a move is a once-per-battle ability `enemy` already used.
pub open spec fn spec_move_used(m: EnemyMove, enemy: CombatantKey, used: Seq<(CombatantKey, String)>) -> bool {
    match m {
        EnemyMove::Ability { id, once, .. } => once && spent(used, enemy, id@),
        _ => false,
    }
}

/// Whether a once-per-battle ability of `enemy` is already spent.
pub fn move_used(m: &EnemyMove, enemy: CombatantKey, state: &BattleState) -> (r: bool)
    ensures
        r == spec_move_used(*m, enemy, state.used_enemy_moves@),
{
    match m {
        EnemyMove::Ability { id, once, .. } => {
            if !*once {
                return false;
            }
            let ghost wanted = id@;
            assert(spec_move_used(*m, enemy, state.used_enemy_moves@) == spent(state.used_enemy_moves@, enemy, wanted));
            let mut i: usize = 0;
            while i < state.used_enemy_moves.len()
                invariant
                    i <= state.used_enemy_moves@.len(),
                    wanted == id@,
                    spec_move_used(*m, enemy, state.used_enemy_moves@) == spent(state.used_enemy_moves@, enemy, wanted),
                    forall|k: int|
                        0 <= k < i ==> !(state.used_enemy_moves@[k].0 == enemy
                            && (#[trigger] state.used_enemy_moves@[k]).1@ == id@),
                decreases state.used_enemy_moves.len() - i,
            {
                if state.used_enemy_moves[i].0 == enemy && str_equals(
                    state.used_enemy_moves[i].1.as_str(),
                    id.as_str(),
                ) {
                    assert(state.used_enemy_moves@[i as int].1@ == id@);
                    assert(spent(state.used_enemy_moves@, enemy, id@));
                    return true;
                }
                i = i + 1;
            }
            false
        },
        EnemyMove::Attack { .. } => false,
    }
}

/// Whether a move's condition holds: always without one; below a share of maximum health
/// (compared exactly, a zero maximum read as one); or on rounds divisible by the period.
pub open spec fn condition_holds(condition: Option<EnemyMoveCondition>, enemy: BattleCombatant, turn_count: u32) -> bool {
    match condition {
        None => true,
        Some(EnemyMoveCondition::HpBelow(v)) => (enemy.health as nat) * (MYRIAD as nat)
            < v.hp_pct_below.value() * (if enemy.max_health == 0 {
            1
        } else {
            enemy.max_health as nat
        }),
        Some(EnemyMoveCondition::TurnModulo(v)) => (turn_count as nat) % v.turn_mod.every.value()
            == 0,
    }
}

/// An hp-below condition fires only for a hurt enemy: never at full health (for a share of at
/// most the whole), always once knocked out (for a positive share), and, once firing, still
/// firing at any lower health; the round does not matter.
pub proof fn lemma_hp_below_fires_only_when_hurt(
    v: crate::scenario_enemy::HpBelowCondition,
    enemy: BattleCombatant,
    hurt: BattleCombatant,
    turn: u32,
    other_turn: u32,
)
    ensures
        ({
            let c = Some(EnemyMoveCondition::HpBelow(v));
            &&& enemy.max_health > 0 && enemy.health >= enemy.max_health && v.hp_pct_below.value()
                <= MYRIAD ==> !condition_holds(c, enemy, turn)
            &&& enemy.health == 0 && v.hp_pct_below.value() > 0 ==> condition_holds(c, enemy, turn)
            &&& condition_holds(c, enemy, turn) && hurt.max_health == enemy.max_health && hurt.health
                <= enemy.health ==> condition_holds(c, hurt, other_turn)
            &&& condition_holds(c, enemy, turn) == condition_holds(c, enemy, other_turn)
        }),
{
    let p = v.hp_pct_below.value();
    let m: nat = if enemy.max_health == 0 {
        1
    } else {
        enemy.max_health as nat
    };
    if enemy.max_health > 0 && enemy.health >= enemy.max_health && p <= MYRIAD {
        assert((enemy.health as nat) * (MYRIAD as nat) >= p * m) by (nonlinear_arith)
            requires
                enemy.health as nat >= m,
                p <= MYRIAD as nat,
        ;
    }
    if enemy.health == 0 && p > 0 {
        assert(p * m > 0) by (nonlinear_arith)
            requires
                p > 0,
                m >= 1,
        ;
    }
    assert((hurt.health as nat) * (MYRIAD as nat) <= (enemy.health as nat) * (MYRIAD as nat)
        || hurt.health > enemy.health) by (nonlinear_arith);
}

/// A move's condition.
pub open spec fn move_condition(m: EnemyMove) -> Option<EnemyMoveCondition> {
    match m {
        EnemyMove::Attack { condition, .. } => condition,
        EnemyMove::Ability { condition, .. } => condition,
    }
}

/// Whether a move's condition holds for `enemy` on round `turn_count`.
pub fn move_condition_matches(m: &EnemyMove, enemy: &BattleCombatant, turn_count: u32) -> (r: bool)
    ensures
        r == condition_holds(move_condition(*m), *enemy, turn_count),
{
    let condition = match m {
        EnemyMove::Attack { condition, .. } => *condition,
        EnemyMove::Ability { condition, .. } => *condition,
    };
    match condition {
        None => true,
        Some(EnemyMoveCondition::HpBelow(v)) => {
            let max: u64 = if enemy.max_health == 0 {
                1
            } else {
                enemy.max_health as u64
            };
            let pct = v.hp_pct_below.get() as u64;
            proof {
                assert(pct * max <= 10_000 * 0x1_0000_0000) by (nonlinear_arith)
                    requires
                        pct <= 10_000,
                        max <= 0x1_0000_0000,
                ;
            }
            (enemy.health as u64) * 10_000u64 < pct * max
        },
        Some(EnemyMoveCondition::TurnModulo(v)) => turn_count % v.turn_mod.every.get() == 0,
    }
}

/// The positions below `n` of the moves an enemy may pick: not spent, and (for conditional
/// enemies) with a holding condition.
pub open spec fn eligible_moves(
    moves: Seq<EnemyMove>,
    n: int,
    enemy: BattleCombatant,
    used: Seq<(CombatantKey, String)>,
    turn_count: u32,
    pattern: EnemyAiPattern,
) -> Seq<int>
    decreases n,
{
    if n <= 0 {
        seq![]
    } else {
        let rest = eligible_moves(moves, n - 1, enemy, used, turn_count, pattern);
        let m = moves[n - 1];
        if !spec_move_used(m, enemy.key, used) && (pattern == EnemyAiPattern::Random
            || condition_holds(move_condition(m), enemy, turn_count)) {
            rest.push(n - 1)
        } else {
            rest
        }
    }
}

/// The summed weight of the moves at `positions`.
pub open spec fn positions_weight(moves: Seq<EnemyMove>, positions: Seq<int>) -> nat
    decreases positions.len(),
{
    if positions.len() == 0 {
        0
    } else {
        positions_weight(moves, positions.drop_last()) + spec_move_weight(moves[positions.last()])
    }
}

/// The position (within `positions`, from `i`) a roll below the total weight lands on.
pub open spec fn weighted_from(moves: Seq<EnemyMove>, positions: Seq<int>, roll: nat, i: int) -> Option<int>
    decreases positions.len() - i,
{
    if i < 0 || i >= positions.len() {
        None
    } else if roll < spec_move_weight(moves[positions[i]]) {
        Some(i)
    } else {
        weighted_from(
            moves,
            positions,
            (roll - spec_move_weight(moves[positions[i]])) as nat,
            i + 1,
        )
    }
}

/// The move an enemy picks, drawing from state `s`, and the state after. An enemy without an
/// inline move list picks nothing and draws nothing; so does one whose eligible moves weigh
/// nothing; otherwise one draw, reduced modulo the eligible weight, picks by weight.
pub open spec fn enemy_choice(
    enemy: BattleCombatant,
    used: Seq<(CombatantKey, String)>,
    turn_count: u32,
    s: u64,
) -> (Option<EnemyMove>, u64) {
    match enemy.behavior {
        Some(EnemyBehavior::Inline { ai, .. }) => {
            let moves = ai.moves@;
            let positions = eligible_moves(moves, moves.len() as int, enemy, used, turn_count, ai.pattern);
            let total = positions_weight(moves, positions);
            if total == 0 {
                (None, s)
            } else {
                match weighted_from(moves, positions, (output(s) as nat) % total, 0) {
                    Some(k) => (Some(moves[positions[k]]), next_state(s)),
                    None => (None, next_state(s)),
                }
            }
        },
        _ => (None, s),
    }
}

/// Whether `action` is what picking `choice` means: an attack for none or an attack move, else
/// the ability.
pub open spec fn action_for(action: EnemyAction, choice: Option<EnemyMove>) -> bool {
    match choice {
        Some(EnemyMove::Ability { id, once, .. }) => action matches EnemyAction::Ability { id: a, once: o }
            && a@ == id@ && o == once,
        _ => action is Attack,
    }
}

proof fn lemma_positions_weight_prefix(moves: Seq<EnemyMove>, positions: Seq<int>, n: int)
    requires
        0 <= n <= positions.len(),
    ensures
        positions_weight(moves, positions.take(n)) <= positions_weight(moves, positions),
    decreases positions.len() - n,
{
    if n < positions.len() {
        lemma_positions_weight_prefix(moves, positions, n + 1);
        assert(positions.take(n + 1).drop_last() =~= positions.take(n));
    } else {
        assert(positions.take(n) =~= positions);
    }
}

/// Whether an enemy's inline move list is short enough for its weights to sum within `u64`.
pub open spec fn moves_bounded(enemy: BattleCombatant) -> bool {
    match enemy.behavior {
        Some(EnemyBehavior::Inline { ai, .. }) => ai.moves@.len() <= u32::MAX,
        _ => true,
    }
}

/// Picks the enemy's action: a weighted draw among its eligible moves, or a plain attack.
pub fn pick_enemy_action(enemy: &BattleCombatant, state: &BattleState, rng: &mut GameplayRng) -> (r: EnemyAction)
    requires
        moves_bounded(*enemy),
    ensures
        ({
            let (choice, after) = enemy_choice(
                *enemy,
                state.used_enemy_moves@,
                state.turn_count,
                old(rng).spec_state(),
            );
            action_for(r, choice) && final(rng).spec_state() == after
        }),
{
    let ai = match &enemy.behavior {
        Some(EnemyBehavior::Inline { ai, .. }) => ai,
        _ => return EnemyAction::Attack,
    };
    let ghost moves = ai.moves@;
    let n = ai.moves.len();
    let mut positions: Vec<usize> = Vec::new();
    let mut i: usize = 0;
    while i < n
        invariant
            n == moves.len(),
            moves == ai.moves@,
            i <= n,
            positions@.map_values(|p: usize| p as int) == eligible_moves(
                moves,
                i as int,
                *enemy,
                state.used_enemy_moves@,
                state.turn_count,
                ai.pattern,
            ),
            forall|k: int| 0 <= k < positions@.len() ==> positions@[k] < n,
            positions@.len() <= i,
        decreases n - i,
    {
        let m = &ai.moves[i];
        let random = match ai.pattern {
            EnemyAiPattern::Random => true,
            _ => false,
        };
        if !move_used(m, enemy.key, state) && (random || move_condition_matches(
            m,
            enemy,
            state.turn_count,
        )) {
            positions.push(i);
            proof {
                assert(positions@.map_values(|p: usize| p as int) =~= eligible_moves(
                    moves,
                    i as int,
                    *enemy,
                    state.used_enemy_moves@,
                    state.turn_count,
                    ai.pattern,
                ).push(i as int));
            }
        }
        i = i + 1;
    }
    let ghost pos = positions@.map_values(|p: usize| p as int);
    let ghost all = eligible_moves(moves, n as int, *enemy, state.used_enemy_moves@, state.turn_count, ai.pattern);
    assert(pos == all);
    match pick_weighted_move(&ai.moves, &positions, rng) {
        Some(p) => {
            proof {
                let total = positions_weight(moves, pos);
                let k = weighted_from(moves, pos, (output(old(rng).spec_state()) as nat) % total, 0)->0;
                assert(pos[k] == positions@[k] as int);
            }
            enemy_action(&ai.moves[p])
        },
        None => EnemyAction::Attack,
    }
}

/// Draws one of the moves at `positions` by weight: one draw, reduced modulo their summed
/// weight, walks the moves in order; moves that weigh nothing in all are never drawn for.
fn pick_weighted_move(moves: &Vec<EnemyMove>, positions: &Vec<usize>, rng: &mut GameplayRng) -> (r: Option<usize>)
    requires
        forall|q: int| 0 <= q < positions@.len() ==> positions@[q] < moves@.len(),
        positions@.len() <= moves@.len(),
        moves@.len() <= u32::MAX,
    ensures
        ({
            let pos = positions@.map_values(|p: usize| p as int);
            let total = positions_weight(moves@, pos);
            &&& total == 0 ==> r is None && *final(rng) == *old(rng)
            &&& total > 0 ==> final(rng).spec_state() == next_state(old(rng).spec_state())
                && match weighted_from(moves@, pos, (output(old(rng).spec_state()) as nat) % total, 0) {
                Some(k) => 0 <= k < positions@.len() && r == Some(positions@[k]),
                None => r is None,
            }
        }),
        r matches Some(p) ==> p < moves@.len(),
{
    let ghost moves_view = moves@;
    let ghost pos = positions@.map_values(|p: usize| p as int);
    let n = moves.len();
    let mut total: u64 = 0;
    let mut k: usize = 0;
    while k < positions.len()
        invariant
            k <= positions@.len(),
            pos == positions@.map_values(|p: usize| p as int),
            forall|q: int| 0 <= q < positions@.len() ==> positions@[q] < n,
            n == moves_view.len(),
            moves_view == moves@,
            total == positions_weight(moves_view, pos.take(k as int)),
            total <= k * 0xffff_ffff,
            positions@.len() <= n,
            n <= u32::MAX,
        decreases positions.len() - k,
    {
        proof {
            assert(pos.take(k + 1).drop_last() =~= pos.take(k as int));
        }
        let w = move_weight(&moves[positions[k]]) as u64;
        proof {
            assert(total + w <= (k + 1) * 0xffff_ffff) by (nonlinear_arith)
                requires
                    total <= k * 0xffff_ffff,
                    w <= 0xffff_ffff,
            ;
            assert((k + 1) * 0xffff_ffff <= 0x1_0000_0000 * 0xffff_ffff) by (nonlinear_arith)
                requires
                    k + 1 <= 0x1_0000_0000,
            ;
        }
        total = total + w;
        k = k + 1;
    }
    proof {
        assert(pos.take(pos.len() as int) =~= pos);
    }
    if total == 0 {
        return None;
    }
    let drawn = rng.next_u64();
    let mut roll = drawn % total;
    let ghost start = roll as nat;
    let ghost after = rng.spec_state();
    let mut j: usize = 0;
    while j < positions.len()
        invariant
            j <= positions@.len(),
            pos == positions@.map_values(|p: usize| p as int),
            forall|q: int| 0 <= q < positions@.len() ==> positions@[q] < n,
            n == moves_view.len(),
            moves_view == moves@,
            weighted_from(moves_view, pos, start, 0) == weighted_from(moves_view, pos, roll as nat, j as int),
            rng.spec_state() == after,
            after == next_state(old(rng).spec_state()),
            start == (output(old(rng).spec_state()) as nat) % positions_weight(moves_view, pos),
            total == positions_weight(moves_view, pos),
            total > 0,
        decreases positions.len() - j,
    {
        let weight = move_weight(&moves[positions[j]]) as u64;
        if roll < weight {
            assert(weighted_from(moves_view, pos, roll as nat, j as int) == Some(j as int));
            assert(pos[j as int] == positions@[j as int] as int);
            return Some(positions[j]);
        }
        roll = roll - weight;
        j = j + 1;
    }
    assert(weighted_from(moves_view, pos, roll as nat, j as int) is None);
    None
}


/// The target rule of the first override for `ability`, if any.
pub open spec fn override_for(overrides: Seq<EnemyTargetOverride>, ability: Seq<char>) -> Option<EnemyOverrideTarget>
    decreases overrides.len(),
{
    if overrides.len() == 0 {
        None
    } else {
        let (id, target) = match overrides[0] {
            EnemyTargetOverride::Standard(v) => (v.ability@, v.target),
            EnemyTargetOverride::AccessoryBlocked(v) => (v.ability@, v.target),
        };
        if id == ability {
            Some(target)
        } else {
            override_for(overrides.drop_first(), ability)
        }
    }
}

/// The target rule of a default choice.
pub open spec fn spec_default_target(t: EnemyDefaultTarget) -> EnemyOverrideTarget {
    match t {
        EnemyDefaultTarget::RandomAlive => EnemyOverrideTarget::RandomAlive,
        EnemyDefaultTarget::LowestHp => EnemyOverrideTarget::LowestHp,
        EnemyDefaultTarget::HighestHp => EnemyOverrideTarget::HighestHp,
    }
}

/// How an enemy picks targets for `ability` (empty for a plain attack): the first override
/// for the ability, else its default; a random living target when it has no inline rules.
pub open spec fn target_mode(enemy: BattleCombatant, ability: Seq<char>) -> EnemyOverrideTarget {
    match enemy.behavior {
        Some(EnemyBehavior::Inline { targeting, .. }) => match override_for(targeting.overrides@, ability) {
            Some(t) => t,
            None => spec_default_target(targeting.default),
        },
        _ => EnemyOverrideTarget::RandomAlive,
    }
}

/// The target rule for `ability`.
pub fn targeting_mode(enemy: &BattleCombatant, ability: &str) -> (r: EnemyOverrideTarget)
    ensures
        r == target_mode(*enemy, ability@),
{
    let targeting = match &enemy.behavior {
        Some(EnemyBehavior::Inline { targeting, .. }) => targeting,
        _ => return EnemyOverrideTarget::RandomAlive,
    };
    let ghost all = targeting.overrides@;
    assert(all.skip(0) =~= all);
    let mut i: usize = 0;
    while i < targeting.overrides.len()
        invariant
            i <= all.len(),
            all == targeting.overrides@,
            target_mode(*enemy, ability@) == match override_for(all, ability@) {
                Some(t) => t,
                None => spec_default_target(targeting.default),
            },
            override_for(all, ability@) == override_for(all.skip(i as int), ability@),
        decreases targeting.overrides.len() - i,
    {
        let id = override_ability(&targeting.overrides[i]);
        let target = override_target(&targeting.overrides[i]);
        proof {
            assert(all.skip(i as int)[0] == all[i as int]);
            assert(all.skip(i as int).drop_first() =~= all.skip(i + 1));
        }
        if str_equals(id, ability) {
            return target;
        }
        i = i + 1;
    }
    proof {
        assert(all.skip(i as int).len() == 0);
    }
    default_target(targeting.default)
}

/// The target rule of a default choice.
pub fn default_target(target: EnemyDefaultTarget) -> (r: EnemyOverrideTarget)
    ensures
        r == spec_default_target(target),
{
    match target {
        EnemyDefaultTarget::RandomAlive => EnemyOverrideTarget::RandomAlive,
        EnemyDefaultTarget::LowestHp => EnemyOverrideTarget::LowestHp,
        EnemyDefaultTarget::HighestHp => EnemyOverrideTarget::HighestHp,
    }
}

/// The ability an override is for.
pub fn override_ability(target: &EnemyTargetOverride) -> (r: &str)
    ensures
        r@ == match *target {
            EnemyTargetOverride::Standard(v) => v.ability@,
            EnemyTargetOverride::AccessoryBlocked(v) => v.ability@,
        },
{
    match target {
        EnemyTargetOverride::Standard(value) => value.ability.as_str(),
        EnemyTargetOverride::AccessoryBlocked(value) => value.ability.as_str(),
    }
}

/// The target rule an override sets.
pub fn override_target(target: &EnemyTargetOverride) -> (r: EnemyOverrideTarget)
    ensures
        r == match *target {
            EnemyTargetOverride::Standard(v) => v.target,
            EnemyTargetOverride::AccessoryBlocked(v) => v.target,
        },
{
    match target {
        EnemyTargetOverride::Standard(value) => value.target,
        EnemyTargetOverride::AccessoryBlocked(value) => value.target,
    }
}

/// The action a picked move means: an attack, or the move's ability.
pub fn enemy_action(movement: &EnemyMove) -> (r: EnemyAction)
    ensures
        action_for(r, Some(*movement)),
{
    match movement {
        EnemyMove::Attack { .. } => EnemyAction::Attack,
        EnemyMove::Ability { id, once, .. } => EnemyAction::Ability { id: id.clone(), once: *once },
    }
}

/// The living party members, in combatant order.
pub open spec fn living_party(cs: Seq<BattleCombatant>) -> Seq<BattleCombatant>
    decreases cs.len(),
{
    if cs.len() == 0 {
        seq![]
    } else if cs.last().key.side == BattleSide::Party && cs.last().alive() {
        living_party(cs.drop_last()).push(cs.last())
    } else {
        living_party(cs.drop_last())
    }
}

/// The members of `pool` that are taunting, in order.
pub open spec fn taunting(pool: Seq<BattleCombatant>) -> Seq<BattleCombatant>
    decreases pool.len(),
{
    if pool.len() == 0 {
        seq![]
    } else if crate::battle::model::carries(pool.last().status_effects@, crate::battle::status::StatusEffect::Taunt) {
        taunting(pool.drop_last()).push(pool.last())
    } else {
        taunting(pool.drop_last())
    }
}

/// Who a single-target rule chooses among: the taunting living members, if any, else every
/// living member.
pub open spec fn target_pool(cs: Seq<BattleCombatant>) -> Seq<BattleCombatant> {
    let living = living_party(cs);
    if taunting(living).len() > 0 {
        taunting(living)
    } else {
        living
    }
}

/// The pool member a rule picks by value: the first with the least value for `LowestHp`, the
/// last with the greatest for `HighestHp` and `HighestDex`.
pub open spec fn picks(pool: Seq<BattleCombatant>, mode: EnemyOverrideTarget, k: int) -> bool {
    0 <= k < pool.len() && match mode {
        EnemyOverrideTarget::LowestHp => (forall|j: int| 0 <= j < pool.len() ==> pool[k].health <= #[trigger] pool[j].health)
            && (forall|j: int| 0 <= j < k ==> pool[k].health < #[trigger] pool[j].health),
        EnemyOverrideTarget::HighestHp => (forall|j: int| 0 <= j < pool.len() ==> #[trigger] pool[j].health <= pool[k].health)
            && (forall|j: int| k < j < pool.len() ==> #[trigger] pool[j].health < pool[k].health),
        EnemyOverrideTarget::HighestDex => (forall|j: int| 0 <= j < pool.len() ==> #[trigger] pool[j].dexterity <= pool[k].dexterity)
            && (forall|j: int| k < j < pool.len() ==> #[trigger] pool[j].dexterity < pool[k].dexterity),
        _ => false,
    }
}

/// Collects the living party members and, among them, the taunting ones.
fn party_pools(state: &BattleState) -> (r: (Vec<usize>, Vec<usize>))
    ensures
        r.0@.map_values(|i: usize| state.combatants@[i as int]) == living_party(state.combatants@),
        r.1@.map_values(|i: usize| state.combatants@[i as int]) == taunting(living_party(state.combatants@)),
        forall|k: int| 0 <= k < r.0@.len() ==> r.0@[k] < state.combatants@.len(),
        forall|k: int| 0 <= k < r.1@.len() ==> r.1@[k] < state.combatants@.len(),
{
    let ghost cs = state.combatants@;
    let mut living: Vec<usize> = Vec::new();
    let mut taunters: Vec<usize> = Vec::new();
    let mut i: usize = 0;
    while i < state.combatants.len()
        invariant
            cs == state.combatants@,
            i <= cs.len(),
            living@.map_values(|q: usize| cs[q as int]) == living_party(cs.take(i as int)),
            taunters@.map_values(|q: usize| cs[q as int]) == taunting(living_party(cs.take(i as int))),
            forall|k: int| 0 <= k < living@.len() ==> living@[k] < cs.len(),
            forall|k: int| 0 <= k < taunters@.len() ==> taunters@[k] < cs.len(),
        decreases cs.len() - i,
    {
        proof {
            assert(cs.take(i + 1).drop_last() =~= cs.take(i as int));
        }
        let actor = &state.combatants[i];
        if actor.key.side == BattleSide::Party && actor.is_alive() {
            living.push(i);
            proof {
                assert(living@.map_values(|q: usize| cs[q as int]) =~= living_party(cs.take(i as int)).push(cs[i as int]));
                assert(living_party(cs.take(i + 1)) == living_party(cs.take(i as int)).push(cs[i as int]));
                assert(living_party(cs.take(i + 1)).drop_last() =~= living_party(cs.take(i as int)));
            }
            if actor.is_taunting() {
                taunters.push(i);
                proof {
                    assert(taunters@.map_values(|q: usize| cs[q as int]) =~= taunting(living_party(cs.take(i as int))).push(cs[i as int]));
                }
            }
        }
        i = i + 1;
    }
    proof {
        assert(cs.take(cs.len() as int) =~= cs);
    }
    (living, taunters)
}

proof fn lemma_living_party_members(cs: Seq<BattleCombatant>)
    ensures
        forall|k: int|
            0 <= k < living_party(cs).len() ==> (#[trigger] living_party(cs)[k]).key.side == BattleSide::Party
                && living_party(cs)[k].alive() && cs.contains(living_party(cs)[k]),
        forall|i: int|
            0 <= i < cs.len() && (#[trigger] cs[i]).key.side == BattleSide::Party && cs[i].alive()
                ==> living_party(cs).contains(cs[i]),
    decreases cs.len(),
{
    if cs.len() > 0 {
        let rest = cs.drop_last();
        lemma_living_party_members(rest);
        let lp = living_party(cs);
        assert forall|k: int| 0 <= k < lp.len() implies (#[trigger] lp[k]).key.side == BattleSide::Party
            && lp[k].alive() && cs.contains(lp[k]) by {
            if k < living_party(rest).len() {
                assert(lp[k] == living_party(rest)[k]);
                let j = choose|j: int| 0 <= j < rest.len() && rest[j] == lp[k];
                assert(cs[j] == rest[j]);
            } else {
                assert(lp[k] == cs[cs.len() - 1]);
            }
        }
        assert forall|i: int|
            0 <= i < cs.len() && (#[trigger] cs[i]).key.side == BattleSide::Party && cs[i].alive()
                implies lp.contains(cs[i]) by {
            if i < cs.len() - 1 {
                assert(rest[i] == cs[i]);
                let k = choose|k: int| 0 <= k < living_party(rest).len() && living_party(rest)[k] == cs[i];
                assert(lp[k] == living_party(rest)[k]);
            } else {
                assert(lp[lp.len() - 1] == cs[i]);
            }
        }
    }
}

proof fn lemma_taunting_members(pool: Seq<BattleCombatant>)
    ensures
        forall|k: int|
            0 <= k < taunting(pool).len() ==> crate::battle::model::carries(
                (#[trigger] taunting(pool)[k]).status_effects@,
                StatusEffect::Taunt,
            ) && pool.contains(taunting(pool)[k]),
        forall|i: int|
            0 <= i < pool.len() && crate::battle::model::carries((#[trigger] pool[i]).status_effects@, StatusEffect::Taunt)
                ==> taunting(pool).len() > 0,
    decreases pool.len(),
{
    if pool.len() > 0 {
        let rest = pool.drop_last();
        lemma_taunting_members(rest);
        let t = taunting(pool);
        assert forall|k: int| 0 <= k < t.len() implies crate::battle::model::carries(
            (#[trigger] t[k]).status_effects@,
            StatusEffect::Taunt,
        ) && pool.contains(t[k]) by {
            if k < taunting(rest).len() {
                assert(t[k] == taunting(rest)[k]);
                let j = choose|j: int| 0 <= j < rest.len() && rest[j] == t[k];
                assert(pool[j] == rest[j]);
            } else {
                assert(t[k] == pool[pool.len() - 1]);
            }
        }
        assert forall|i: int|
            0 <= i < pool.len() && crate::battle::model::carries((#[trigger] pool[i]).status_effects@, StatusEffect::Taunt)
                implies t.len() > 0 by {
            if i < pool.len() - 1 {
                assert(rest[i] == pool[i]);
            }
        }
    }
}

proof fn lemma_picks_exist(pool: Seq<BattleCombatant>, mode: EnemyOverrideTarget)
    requires
        pool.len() > 0,
        mode == EnemyOverrideTarget::LowestHp || mode == EnemyOverrideTarget::HighestHp || mode
            == EnemyOverrideTarget::HighestDex,
    ensures
        exists|k: int| picks(pool, mode, k),
    decreases pool.len(),
{
    let n = pool.len() - 1;
    if pool.len() == 1 {
        assert(picks(pool, mode, 0));
    } else {
        let rest = pool.drop_last();
        lemma_picks_exist(rest, mode);
        let k = choose|k: int| picks(rest, mode, k);
        let x = pool[n];
        assert forall|j: int| 0 <= j < n implies #[trigger] pool[j] == rest[j] by {}
        match mode {
            EnemyOverrideTarget::LowestHp => {
                if rest[k].health <= x.health {
                    assert(picks(pool, mode, k));
                } else {
                    assert(picks(pool, mode, n));
                }
            },
            EnemyOverrideTarget::HighestHp => {
                if x.health >= rest[k].health {
                    assert(picks(pool, mode, n));
                } else {
                    assert(picks(pool, mode, k));
                }
            },
            _ => {
                if x.dexterity >= rest[k].dexterity {
                    assert(picks(pool, mode, n));
                } else {
                    assert(picks(pool, mode, k));
                }
            },
        }
    }
}

/// Taunt works: while a living party member taunts, every single-target rule of an enemy (the
/// random one, lowest or highest health, highest dexterity) picks exactly one target, and it
/// is a living party member that taunts.
pub proof fn lemma_taunt_draws_single_target_rules(
    enemy: BattleCombatant,
    cs: Seq<BattleCombatant>,
    ability: Seq<char>,
    s: u64,
    i: int,
)
    requires
        0 <= i < cs.len(),
        cs[i].key.side == BattleSide::Party,
        cs[i].alive(),
        crate::battle::model::carries(cs[i].status_effects@, StatusEffect::Taunt),
        target_mode(enemy, ability) != EnemyOverrideTarget::SelfTarget,
        target_mode(enemy, ability) != EnemyOverrideTarget::AllParty,
    ensures
        ({
            let ts = enemy_targets(enemy, cs, ability, s).0;
            &&& ts.len() == 1
            &&& exists|j: int|
                0 <= j < cs.len() && #[trigger] cs[j].key == ts[0] && cs[j].key.side == BattleSide::Party
                    && cs[j].alive() && crate::battle::model::carries(cs[j].status_effects@, StatusEffect::Taunt)
        }),
{
    let mode = target_mode(enemy, ability);
    let living = living_party(cs);
    lemma_living_party_members(cs);
    lemma_taunting_members(living);
    assert(living.contains(cs[i]));
    let li = choose|li: int| 0 <= li < living.len() && living[li] == cs[i];
    assert(crate::battle::model::carries(living[li].status_effects@, StatusEffect::Taunt));
    assert(taunting(living).len() > 0);
    let pool = target_pool(cs);
    assert(pool == taunting(living));
    let k = if mode == EnemyOverrideTarget::RandomAlive {
        ((output(s) as nat) % pool.len()) as int
    } else {
        lemma_picks_exist(pool, mode);
        picked_index(pool, mode)
    };
    assert(0 <= k < pool.len());
    let chosen = pool[k];
    assert(enemy_targets(enemy, cs, ability, s).0 == seq![chosen.key]);
    assert(living.contains(chosen));
    let lk = choose|lk: int| 0 <= lk < living.len() && living[lk] == chosen;
    assert(cs.contains(living[lk]));
    let j = choose|j: int| 0 <= j < cs.len() && cs[j] == chosen;
    assert(cs[j].key == enemy_targets(enemy, cs, ability, s).0[0]);
}

/// The keys of `pool`.
pub open spec fn pool_keys(pool: Seq<BattleCombatant>) -> Seq<CombatantKey> {
    pool.map_values(|c: BattleCombatant| c.key)
}

/// The pool member a by-value rule picks, there being at most one.
pub open spec fn picked_index(pool: Seq<BattleCombatant>, mode: EnemyOverrideTarget) -> int {
    choose|k: int| picks(pool, mode, k)
}

/// The targets an enemy's action takes, drawing from state `s` when the rule is random, and the
/// state after.
pub open spec fn enemy_targets(
    enemy: BattleCombatant,
    cs: Seq<BattleCombatant>,
    ability: Seq<char>,
    s: u64,
) -> (Seq<CombatantKey>, u64) {
    let mode = target_mode(enemy, ability);
    let pool = target_pool(cs);
    match mode {
        EnemyOverrideTarget::SelfTarget => (seq![enemy.key], s),
        EnemyOverrideTarget::AllParty => (pool_keys(living_party(cs)), s),
        EnemyOverrideTarget::RandomAlive => (
            if pool.len() == 0 {
                Seq::empty()
            } else {
                seq![pool[((output(s) as nat) % pool.len()) as int].key]
            },
            next_state(s),
        ),
        _ => (
            if pool.len() == 0 {
                Seq::empty()
            } else {
                seq![pool[picked_index(pool, mode)].key]
            },
            s,
        ),
    }
}

/// A by-value rule picks one member at most.
proof fn lemma_picks_unique(pool: Seq<BattleCombatant>, mode: EnemyOverrideTarget, a: int, b: int)
    requires
        picks(pool, mode, a),
        picks(pool, mode, b),
    ensures
        a == b,
{
    if a != b {
        let (lo, hi) = if a < b { (a, b) } else { (b, a) };
        assert(picks(pool, mode, lo) && picks(pool, mode, hi));
        match mode {
            EnemyOverrideTarget::LowestHp => {
                assert(pool[hi].health < pool[lo].health);
                assert(pool[lo].health <= pool[hi].health);
            },
            EnemyOverrideTarget::HighestHp => {
                assert(pool[hi].health < pool[lo].health) by {
                    assert(pool[lo].health <= pool[hi].health);
                }
            },
            EnemyOverrideTarget::HighestDex => {
                assert(pool[hi].dexterity < pool[lo].dexterity) by {
                    assert(pool[lo].dexterity <= pool[hi].dexterity);
                }
            },
            _ => {},
        }
    }
}

/// The ability an enemy's choice casts: empty for an attack.
pub open spec fn chosen_ability(choice: Option<EnemyMove>) -> Seq<char> {
    match choice {
        Some(EnemyMove::Ability { id, .. }) => id@,
        _ => Seq::empty(),
    }
}

/// Chooses the targets of an enemy's action. Its own key for a self-targeted ability; every
/// living party member for a party-wide one; otherwise one member of the pool (taunters
/// first): the least-health first, the greatest-health or greatest-dexterity last, or a
/// random one drawn from `rng`, which draws even when the pool is empty.
pub fn resolve_targets(
    enemy: &BattleCombatant,
    state: &BattleState,
    ability_id: &str,
    rng: &mut GameplayRng,
) -> (r: Vec<CombatantKey>)
    ensures
        ({
            let mode = target_mode(*enemy, ability_id@);
            let pool = target_pool(state.combatants@);
            match mode {
                EnemyOverrideTarget::SelfTarget => r@ == seq![enemy.key] && *final(rng) == *old(rng),
                EnemyOverrideTarget::AllParty => r@ == pool_keys(living_party(state.combatants@))
                    && *final(rng) == *old(rng),
                EnemyOverrideTarget::RandomAlive => {
                    &&& final(rng).spec_state() == next_state(old(rng).spec_state())
                    &&& if pool.len() == 0 {
                        r@.len() == 0
                    } else {
                        r@ == seq![pool[((output(old(rng).spec_state()) as nat) % pool.len()) as int].key]
                    }
                },
                _ => {
                    &&& *final(rng) == *old(rng)
                    &&& if pool.len() == 0 {
                        r@.len() == 0
                    } else {
                        exists|k: int| picks(pool, mode, k) && r@ == seq![pool[k].key]
                    }
                },
            }
        }),
{
    let mode = targeting_mode(enemy, ability_id);
    if mode == EnemyOverrideTarget::SelfTarget {
        let mut out = Vec::new();
        out.push(enemy.key);
        proof {
            assert(out@ =~= seq![enemy.key]);
        }
        return out;
    }
    let ghost cs = state.combatants@;
    let (living, taunters) = party_pools(state);
    if mode == EnemyOverrideTarget::AllParty {
        let mut out: Vec<CombatantKey> = Vec::new();
        let mut i: usize = 0;
        while i < living.len()
            invariant
                i <= living@.len(),
                cs == state.combatants@,
                forall|k: int| 0 <= k < living@.len() ==> living@[k] < cs.len(),
                out@ == pool_keys(living@.map_values(|q: usize| cs[q as int])).take(i as int),
            decreases living.len() - i,
        {
            out.push(state.combatants[living[i]].key);
            proof {
                assert(out@ =~= pool_keys(living@.map_values(|q: usize| cs[q as int])).take(i + 1));
            }
            i = i + 1;
        }
        proof {
            assert(out@ =~= pool_keys(living@.map_values(|q: usize| cs[q as int])));
        }
        return out;
    }
    let pool = if taunters.len() > 0 {
        taunters
    } else {
        living
    };
    let ghost pv = pool@.map_values(|q: usize| cs[q as int]);
    assert(pv == target_pool(cs));
    let mut out: Vec<CombatantKey> = Vec::new();
    match mode {
        EnemyOverrideTarget::RandomAlive => {
            let n = pool.len();
            let divisor: u64 = if n == 0 {
                1
            } else {
                n as u64
            };
            let index = (rng.next_u64() % divisor) as usize;
            if index < n {
                out.push(state.combatants[pool[index]].key);
                proof {
                    assert(out@ =~= seq![pv[index as int].key]);
                }
            }
        },
        _ => {
            if pool.len() > 0 {
                let mut best: usize = 0;
                let mut k: usize = 1;
                while k < pool.len()
                    invariant
                        cs == state.combatants@,
                        pv == pool@.map_values(|q: usize| cs[q as int]),
                        forall|j: int| 0 <= j < pool@.len() ==> pool@[j] < cs.len(),
                        1 <= k <= pool@.len(),
                        best < k,
                        mode == EnemyOverrideTarget::LowestHp || mode == EnemyOverrideTarget::HighestHp
                            || mode == EnemyOverrideTarget::HighestDex,
                        picks(pv.take(k as int), mode, best as int),
                    decreases pool.len() - k,
                {
                    let candidate = &state.combatants[pool[k]];
                    let current = &state.combatants[pool[best]];
                    let better = match mode {
                        EnemyOverrideTarget::LowestHp => candidate.health < current.health,
                        EnemyOverrideTarget::HighestHp => candidate.health >= current.health,
                        _ => candidate.dexterity >= current.dexterity,
                    };
                    let ghost old_best = best;
                    if better {
                        best = k;
                    }
                    proof {
                        let t = pv.take(k + 1);
                        assert forall|j: int| 0 <= j < k ==> t[j] == pv.take(k as int)[j] by {}
                        assert(t[k as int] == pv[k as int]);
                    }
                    k = k + 1;
                }
                proof {
                    assert(pv.take(pool@.len() as int) =~= pv);
                }
                out.push(state.combatants[pool[best]].key);
                proof {
                    assert(out@ =~= seq![pv[best as int].key]);
                }
            }
        },
    }
    out
}


/// The poison an enemy ability leaves: a tenth of the attack (at least one) each turn,
/// without end.
pub open spec fn venom(attack: i64) -> ActiveStatus {
    let clamped: i64 = if attack < 0 {
        0
    } else {
        attack
    };
    let tenth = (clamped as u32) / 10;
    ActiveStatus {
        effect: StatusEffect::Poison,
        remaining_turns: None,
        potency: StatusPotency::DamagePerTurn(
            if tenth == 0 {
                1
            } else {
                tenth
            },
        ),
    }
}

/// The statuses an enemy ability leaves on a surviving target: poison for the venomous bites
/// and miasma; poison and lasting silence for the plague touch; nothing otherwise.
pub open spec fn ability_statuses(ability: Seq<char>, attack: i64) -> Seq<ActiveStatus> {
    if ability == "venom_bite"@ || ability == "poison_bite"@ || ability == "poison_tail"@
        || ability == "miasma"@ {
        seq![venom(attack)]
    } else if ability == "plague_touch"@ {
        seq![
            venom(attack),
            ActiveStatus {
                effect: StatusEffect::Silence,
                remaining_turns: None,
                potency: StatusPotency::Inert,
            },
        ]
    } else {
        seq![]
    }
}

/// The statuses an enemy ability leaves on a surviving target.
pub fn enemy_ability_statuses(ability_id: &str, attack: i64) -> (r: Vec<ActiveStatus>)
    ensures
        r@ == ability_statuses(ability_id@, attack),
{
    let clamped: i64 = if attack < 0 {
        0
    } else {
        attack
    };
    let tenth = #[verifier::truncate] (clamped as u32) / 10;
    let poison = ActiveStatus::damage_over_time(
        StatusEffect::Poison,
        None,
        if tenth == 0 {
            1
        } else {
            tenth
        },
    );
    let mut out = Vec::new();
    if str_equals(ability_id, "venom_bite") || str_equals(ability_id, "poison_bite") || str_equals(
        ability_id,
        "poison_tail",
    ) || str_equals(ability_id, "miasma") {
        out.push(poison);
        proof {
            assert(out@ =~= seq![venom(attack)]);
        }
    } else if str_equals(ability_id, "plague_touch") {
        out.push(poison);
        out.push(ActiveStatus::persistent(StatusEffect::Silence));
        proof {
            assert(out@ =~= ability_statuses(ability_id@, attack));
        }
    } else {
        proof {
            assert(out@ =~= ability_statuses(ability_id@, attack));
        }
    }
    out
}

/// The accessory-gated override of `enemy` for `ability`, if it has one: the first such
/// override naming the ability.
pub open spec fn gated_override(enemy: BattleCombatant, ability: Seq<char>) -> Option<AccessoryBlockedTargetOverride> {
    match enemy.behavior {
        Some(EnemyBehavior::Inline { targeting, .. }) => first_gated(targeting.overrides@, ability),
        _ => None,
    }
}

/// The first accessory-gated override naming `ability`.
pub open spec fn first_gated(overrides: Seq<EnemyTargetOverride>, ability: Seq<char>) -> Option<AccessoryBlockedTargetOverride>
    decreases overrides.len(),
{
    if overrides.len() == 0 {
        None
    } else {
        match overrides[0] {
            EnemyTargetOverride::AccessoryBlocked(v) => if v.ability@ == ability {
                Some(v)
            } else {
                first_gated(overrides.drop_first(), ability)
            },
            _ => first_gated(overrides.drop_first(), ability),
        }
    }
}

/// The accessory-gated override of `enemy` for `ability`, if it has one.
pub fn blocked_override<'a>(enemy: &'a BattleCombatant, ability: &str) -> (r: Option<&'a AccessoryBlockedTargetOverride>)
    ensures
        match gated_override(*enemy, ability@) {
            Some(v) => r == Some(&v),
            None => r is None,
        },
{
    let targeting = match &enemy.behavior {
        Some(EnemyBehavior::Inline { targeting, .. }) => targeting,
        _ => return None,
    };
    let ghost all = targeting.overrides@;
    assert(all.skip(0) =~= all);
    let mut i: usize = 0;
    while i < targeting.overrides.len()
        invariant
            i <= all.len(),
            all == targeting.overrides@,
            gated_override(*enemy, ability@) == first_gated(all, ability@),
            first_gated(all, ability@) == first_gated(all.skip(i as int), ability@),
        decreases targeting.overrides.len() - i,
    {
        proof {
            assert(all.skip(i as int)[0] == all[i as int]);
            assert(all.skip(i as int).drop_first() =~= all.skip(i + 1));
        }
        match &targeting.overrides[i] {
            EnemyTargetOverride::AccessoryBlocked(v) => {
                if str_equals(v.ability.as_str(), ability) {
                    return Some(v);
                }
            },
            _ => {},
        }
        i = i + 1;
    }
    None
}

/// An ability id as a display name: its non-empty `_`-separated words capitalized and joined
/// by spaces.
pub open spec fn ability_words(id: Seq<char>) -> Seq<Seq<char>>
    decreases id.len(),
{
    let i = index_of_char(id, '_');
    let head = id.take(i);
    let rest = if i < id.len() {
        proof {
            lemma_index_of_char_bounds(id, '_');
        }
        ability_words(id.skip(i + 1))
    } else {
        seq![]
    };
    if head.len() > 0 {
        seq![capitalized(head)] + rest
    } else {
        rest
    }
}

/// An ability id as a display name.
pub open spec fn ability_display(id: Seq<char>) -> Seq<char> {
    joined(ability_words(id), " "@)
}

/// An ability id as a display name.
pub fn display_ability_name(id: &str) -> (r: String)
    ensures
        r@ == ability_display(id@),
{
    let n = id.unicode_len();
    let ghost s = id@;
    let mut out = String::new();
    let mut started = false;
    let ghost mut done: Seq<Seq<char>> = seq![];
    let mut p: usize = 0;
    let mut more = true;
    proof {
        assert(s.skip(0) =~= s);
    }
    while more
        invariant
            n == s.len(),
            s == id@,
            p <= n,
            started == (done.len() > 0),
            out@ == joined(done, " "@),
            more ==> done + ability_words(s.skip(p as int)) == ability_words(s),
            !more ==> done == ability_words(s),
        decreases n - p + (if more {
            1int
        } else {
            0int
        }),
    {
        let mut j: usize = p;
        while j < n && id.get_char(j) != '_'
            invariant
                n == s.len(),
                s == id@,
                p <= j <= n,
                forall|k: int| p <= k < j ==> s[k] != '_',
            decreases n - j,
        {
            j = j + 1;
        }
        let ghost rest = s.skip(p as int);
        proof {
            lemma_index_of_char_at(rest, '_', j - p);
            assert(rest.take(j - p) =~= s.subrange(p as int, j as int));
        }
        if j > p {
            let first = id.get_char(p);
            let mut word = uppercase_of(first);
            let tail = id.substring_char(p + 1, j);
            word.append(tail);
            proof {
                assert(s.subrange(p as int, j as int).drop_first() =~= s.subrange(p + 1, j as int));
                assert(word@ =~= capitalized(s.subrange(p as int, j as int)));
            }
            join_push(&mut out, started, word.as_str(), " ", Ghost(done));
            proof {
                done = done.push(word@);
            }
            started = true;
        }
        if j < n {
            proof {
                assert(rest.skip(j - p + 1) =~= s.skip(j + 1));
                if j > p {
                    assert(done.drop_last() + (seq![done.last()] + ability_words(s.skip(j + 1))) =~= done + ability_words(s.skip(j + 1)));
                }
            }
            p = j + 1;
        } else {
            proof {
                if j > p {
                    assert(done.drop_last() + seq![done.last()] =~= done);
                } else {
                    assert(done + Seq::<Seq<char>>::empty() =~= done);
                }
            }
            more = false;
            p = n;
        }
    }
    out
}


/// Whether a defender's accessory is `name`.
fn wears(accessory: &Option<String>, name: &str) -> (r: bool)
    ensures
        r == (accessory matches Some(a) && a@ == name@),
{
    match accessory {
        Some(a) => str_equals(a.as_str(), name),
        None => false,
    }
}

/// The transcript line of an enemy ability.
pub open spec fn enemy_ability_line(source_id: Seq<char>, ability: Seq<char>, targets: Seq<CombatantKey>) -> Seq<char> {
    "ENEMY_ABILITY "@ + source_id + " "@ + ability + " "@ + target_list(targets)
}

/// Whether a combatant of `enemy_type` refuses `status`: a construct refuses harmful ones.
pub open spec fn refuses_status(enemy_type: Option<crate::scenario_enemy::EnemyType>, status: ActiveStatus) -> bool {
    enemy_type == Some(crate::scenario_enemy::EnemyType::Construct) && status.effect.spec_is_harmful()
}

/// `current` after each status of `added` is put on in order, skipping those refused.
pub open spec fn added_statuses(
    enemy_type: Option<crate::scenario_enemy::EnemyType>,
    current: Seq<ActiveStatus>,
    added: Seq<ActiveStatus>,
) -> Seq<ActiveStatus>
    decreases added.len(),
{
    if added.len() == 0 {
        current
    } else {
        let before = added_statuses(enemy_type, current, added.drop_last());
        if refuses_status(enemy_type, added.last()) {
            before
        } else {
            crate::battle::model::with_status(before, added.last())
        }
    }
}

/// The events recorded as the statuses of `added` are put on `target` in order: one per status
/// not refused.
pub open spec fn added_status_events(
    enemy_type: Option<crate::scenario_enemy::EnemyType>,
    added: Seq<ActiveStatus>,
    source: CombatantKey,
    target: CombatantKey,
) -> Seq<BattleEvent>
    decreases added.len(),
{
    if added.len() == 0 {
        Seq::empty()
    } else {
        let before = added_status_events(enemy_type, added.drop_last(), source, target);
        if refuses_status(enemy_type, added.last()) {
            before
        } else {
            before.push(BattleEvent::StatusApplied { source, target, status: added.last() })
        }
    }
}

/// The damage an enemy ability with attack `attack` deals `d`: all but one health point when
/// the ability's gate says so, else the attack less the defender's effective defense (at least
/// one), mitigated and capped at its health.
pub open spec fn enemy_ability_damage(attack: i64, hp_to_one: bool, d: BattleCombatant) -> nat {
    if hp_to_one {
        if d.health > 0 {
            (d.health - 1) as nat
        } else {
            0
        }
    } else {
        let diff = attack - d.spec_effective_defense();
        let base: nat = if diff < 1 {
            1
        } else {
            (diff as u32) as nat
        };
        let dealt = crate::battle::model::mitigated(base, d.status_effects@);
        if dealt <= d.health {
            dealt
        } else {
            d.health as nat
        }
    }
}

/// The combatants and events between the targets of an enemy ability.
pub struct EnemyAbilitySnapshot {
    pub combatants: Seq<BattleCombatant>,
    pub events: Seq<BattleEvent>,
}

/// What an enemy ability does to the target `requested`, taking `b` to `a`. The blow lands on
/// the target's living cover, if any. A combatant that is not on the field is passed over;
/// one that wears the gating accessory blocks the ability; any other takes the damage and,
/// when it survives, the ability's statuses.
pub open spec fn enemy_ability_step(
    attack: i64,
    gate: Option<Seq<char>>,
    hp_to_one: bool,
    statuses: Seq<ActiveStatus>,
    source: CombatantKey,
    requested: CombatantKey,
    b: EnemyAbilitySnapshot,
    a: EnemyAbilitySnapshot,
) -> bool {
    let cs = b.combatants;
    let landed = crate::battle::ability::technique_landing(cs, requested);
    let di = first_index_of(cs, landed);
    if di < 0 {
        a == b
    } else if gate matches Some(g) && cs[di].accessory matches Some(x) && x@ == g {
        &&& a.combatants == cs
        &&& a.events == b.events.push(BattleEvent::EnemyAbilityBlocked { source, target: landed })
    } else {
        let d = cs[di];
        let amount = enemy_ability_damage(attack, hp_to_one, d);
        let health = d.health - amount;
        let woken = if amount > 0 {
            crate::battle::model::without_effect(d.status_effects@, StatusEffect::Sleep)
        } else {
            d.status_effects@
        };
        let struck = b.events.push(
            BattleEvent::EnemyAbilityDamage {
                source,
                target: landed,
                amount: amount as u32,
                knocked_out: amount >= d.health,
            },
        );
        &&& a.combatants == cs.update(di, a.combatants[di])
        &&& a.combatants[di].health == health
        &&& a.combatants[di].same_but_health_and_statuses(&d)
        &&& a.combatants[di].status_effects@ == if health > 0 {
            added_statuses(d.enemy_type, woken, statuses)
        } else {
            woken
        }
        &&& a.events == if health > 0 {
            struck + added_status_events(d.enemy_type, statuses, source, landed)
        } else {
            struck
        }
    }
}

/// Whether `trace` runs an enemy ability over `targets` in order.
pub open spec fn enemy_ability_trace(
    attack: i64,
    gate: Option<Seq<char>>,
    hp_to_one: bool,
    statuses: Seq<ActiveStatus>,
    source: CombatantKey,
    targets: Seq<CombatantKey>,
    trace: Seq<EnemyAbilitySnapshot>,
) -> bool {
    &&& trace.len() == targets.len() + 1
    &&& forall|t: int|
        0 <= t < targets.len() ==> enemy_ability_step(
            attack,
            gate,
            hp_to_one,
            statuses,
            source,
            #[trigger] targets[t],
            trace[t],
            trace[t + 1],
        )
}

/// The accessory that blocks `ability` of `enemy`, if one does.
pub open spec fn ability_gate(enemy: BattleCombatant, ability: Seq<char>) -> Option<Seq<char>> {
    match gated_override(enemy, ability) {
        Some(v) => Some(v.blocked_by_accessory@),
        None => None,
    }
}

/// Whether `ability` of `enemy` leaves its target at one health point.
pub open spec fn ability_hp_to_one(enemy: BattleCombatant, ability: Seq<char>) -> bool {
    gated_override(enemy, ability) matches Some(v) && v.on_hit == AbilityHitOutcome::HpTo1
}

/// An enemy ability against each of `targets` in turn. Each blow lands on its target's living
/// cover, if any; a defender wearing the accessory that gates the ability blocks it; a gated
/// ability that reduces to one health leaves the defender at one; otherwise the blow is the
/// enemy's attack less the defender's effective defense (at least one), mitigated and capped
/// at its health. A surviving defender then takes the ability's statuses. The events are
/// queued, the ability narrated and recorded, and the phase becomes `Resolve`.
pub fn resolve_enemy_ability(
    state: &mut BattleState,
    source_key: CombatantKey,
    ability_id: &str,
    targets: &[CombatantKey],
)
    requires
        first_index_of(old(state).combatants@, source_key) >= 0,
    ensures
        final(state).same_bookkeeping(old(state)),
        only_health_and_statuses(final(state).combatants@, old(state).combatants@),
        pools_ok(old(state).combatants@) ==> pools_ok(final(state).combatants@),
        final(state).phase == BattlePhase::Resolve,
        final(state).feedback_events@.len() >= old(state).feedback_events@.len(),
        final(state).feedback_events@.subrange(0, old(state).feedback_events@.len() as int)
            == old(state).feedback_events@,
        ({
            let source = old(state).combatants@[first_index_of(old(state).combatants@, source_key)];
            &&& final(state).message@ == source.name@ + " uses "@ + ability_display(ability_id@) + "!"@
            &&& final(state).transcript@ == old(state).transcript@.push(final(state).transcript@.last())
            &&& final(state).transcript@.last()@ == enemy_ability_line(source.id@, ability_id@, targets@)
        }),
        ({
            let cs = old(state).combatants@;
            let src = cs[first_index_of(cs, source_key)];
            exists|trace: Seq<EnemyAbilitySnapshot>|
                #[trigger] enemy_ability_trace(
                    src.attack,
                    ability_gate(src, ability_id@),
                    ability_hp_to_one(src, ability_id@),
                    ability_statuses(ability_id@, src.attack),
                    source_key,
                    targets@,
                    trace,
                ) && trace[0] == (EnemyAbilitySnapshot { combatants: cs, events: Seq::empty() })
                    && trace.last().combatants == final(state).combatants@
                    && final(state).feedback_events@ == old(state).feedback_events@ + trace.last().events
        }),
{
    let ghost cs = state.combatants@;
    proof {
        lemma_first_index_of_bounds(cs, source_key);
    }
    let si = match state.actor_index(source_key) {
        Some(si) => si,
        None => {
            proof {
                assert(false);
            }
            return;
        },
    };
    let attack = state.combatants[si].attack;
    let name = state.combatants[si].name.clone();
    let id = state.combatants[si].id.clone();
    let (gate_accessory, hp_to_one) = match blocked_override(&state.combatants[si], ability_id) {
        Some(v) => (Some(v.blocked_by_accessory.clone()), v.on_hit == AbilityHitOutcome::HpTo1),
        None => (None, false),
    };
    let statuses = enemy_ability_statuses(ability_id, attack);
    let ghost st0 = *state;
    let ghost gate = ability_gate(cs[si as int], ability_id@);
    let ghost hp1 = ability_hp_to_one(cs[si as int], ability_id@);
    let mut events: Vec<BattleEvent> = Vec::new();
    let ghost mut trace: Seq<EnemyAbilitySnapshot> = seq![EnemyAbilitySnapshot { combatants: cs, events: Seq::empty() }];
    proof {
        assert(gate == match gate_accessory {
            Some(g) => Some(g@),
            None => None,
        });
        assert(hp1 == hp_to_one);
    }
    let mut t: usize = 0;
    while t < targets.len()
        invariant
            t <= targets@.len(),
            only_combatants_changed(state, &st0),
            only_health_and_statuses(state.combatants@, st0.combatants@),
            pools_ok(st0.combatants@) ==> pools_ok(state.combatants@),
            cs == st0.combatants@,
            gate == match gate_accessory {
                Some(g) => Some(g@),
                None => None::<Seq<char>>,
            },
            hp1 == hp_to_one,
            trace.len() == t + 1,
            trace[0] == (EnemyAbilitySnapshot { combatants: cs, events: Seq::empty() }),
            trace.last() == (EnemyAbilitySnapshot { combatants: state.combatants@, events: events@ }),
            forall|k: int|
                0 <= k < t ==> enemy_ability_step(
                    attack,
                    gate,
                    hp1,
                    statuses@,
                    source_key,
                    #[trigger] targets@[k],
                    trace[k],
                    trace[k + 1],
                ),
        decreases targets.len() - t,
    {
        let requested = targets[t];
        let ghost b = trace.last();
        let ghost st1 = *state;
        proof {
            lemma_first_index_of_bounds(state.combatants@, requested);
        }
        let landed = match state.actor_index(requested) {
            Some(r) => match state.combatants[r].redirected_target() {
                Some(cover) => {
                    proof {
                        lemma_first_index_of_bounds(state.combatants@, cover);
                    }
                    match state.actor_index(cover) {
                        Some(c) => if state.combatants[c].is_alive() {
                            cover
                        } else {
                            requested
                        },
                        None => requested,
                    }
                },
                None => requested,
            },
            None => requested,
        };
        proof {
            assert(landed == crate::battle::ability::technique_landing(b.combatants, requested));
            lemma_first_index_of_bounds(state.combatants@, landed);
        }
        match state.actor_index(landed) {
            Some(di) => {
                let blocked = match &gate_accessory {
                    Some(accessory) => wears(&state.combatants[di].accessory, accessory.as_str()),
                    None => false,
                };
                if blocked {
                    events.push(BattleEvent::EnemyAbilityBlocked { source: source_key, target: landed });
                    proof {
                        assert(gate matches Some(g) && b.combatants[di as int].accessory matches Some(x) && x@ == g);
                        let next = EnemyAbilitySnapshot { combatants: state.combatants@, events: events@ };
                        assert(enemy_ability_step(attack, gate, hp1, statuses@, source_key, requested, b, next));
                    }
                } else {
                    proof {
                        assert(!(gate matches Some(g) && b.combatants[di as int].accessory matches Some(x) && x@ == g));
                    }
                    let health = state.combatants[di].health;
                    let amount = if hp_to_one {
                        if health > 0 {
                            health - 1
                        } else {
                            0
                        }
                    } else {
                        let defense = state.combatants[di].effective_defense();
                        let diff: i128 = attack as i128 - defense as i128;
                        let base: u32 = if diff < 1 {
                            1
                        } else {
                            #[verifier::truncate]
                            (diff as u32)
                        };
                        let dealt = state.combatants[di].mitigated_damage(base);
                        if dealt <= health {
                            dealt
                        } else {
                            health
                        }
                    };
                    proof {
                        assert(amount as nat == enemy_ability_damage(attack, hp_to_one, b.combatants[di as int]));
                    }
                    let ghost before = state.combatants@;
                    let _ = state.combatants[di].apply_resolved_damage(amount);
                    proof {
                        assert(state.combatants@ =~= before.update(di as int, state.combatants@[di as int]));
                        assert forall|j: int| #![auto] 0 <= j < state.combatants@.len() implies state.combatants@[j].same_but_health_and_statuses(&st0.combatants@[j]) by {
                            if j != di {
                                assert(state.combatants@[j] == before[j]);
                            }
                        }
                    }
                    events.push(
                        BattleEvent::EnemyAbilityDamage {
                            source: source_key,
                            target: landed,
                            amount,
                            knocked_out: amount >= health,
                        },
                    );
                    let ghost mid = state.combatants@;
                    let ghost mid_events = events@;
                    let ghost et = b.combatants[di as int].enemy_type;
                    if state.combatants[di].is_alive() {
                        let mut k: usize = 0;
                        while k < statuses.len()
                            invariant
                                k <= statuses@.len(),
                                di < state.combatants@.len(),
                                di < mid.len(),
                                only_combatants_changed(state, &st0),
                                only_health_and_statuses(state.combatants@, st0.combatants@),
                                pools_ok(st0.combatants@) ==> pools_ok(state.combatants@),
                                state.combatants@ == mid.update(di as int, state.combatants@[di as int]),
                                state.combatants@[di as int].health == mid[di as int].health,
                                state.combatants@[di as int].same_but_health_and_statuses(&mid[di as int]),
                                mid[di as int].enemy_type == et,
                                state.combatants@[di as int].status_effects@ == added_statuses(
                                    et,
                                    mid[di as int].status_effects@,
                                    statuses@.take(k as int),
                                ),
                                events@ == mid_events + added_status_events(
                                    et,
                                    statuses@.take(k as int),
                                    source_key,
                                    landed,
                                ),
                            decreases statuses.len() - k,
                        {
                            let status = statuses[k];
                            let ghost inner = state.combatants@;
                            let applied = state.combatants[di].add_status(status);
                            proof {
                                assert(statuses@.take(k + 1).drop_last() =~= statuses@.take(k as int));
                                assert(statuses@.take(k + 1).last() == status);
                                assert(state.combatants@ =~= inner.update(di as int, state.combatants@[di as int]));
                                assert(state.combatants@ =~= mid.update(di as int, state.combatants@[di as int]));
                                assert forall|j: int| #![auto] 0 <= j < state.combatants@.len() implies state.combatants@[j].same_but_health_and_statuses(&st0.combatants@[j]) && (inner[j].pools_in_range() ==> state.combatants@[j].pools_in_range()) by {
                                    if j != di {
                                        assert(state.combatants@[j] == inner[j]);
                                    }
                                }
                            }
                            if applied {
                                events.push(BattleEvent::StatusApplied { source: source_key, target: landed, status });
                            }
                            proof {
                                assert(events@ =~= mid_events + added_status_events(
                                    et,
                                    statuses@.take(k + 1),
                                    source_key,
                                    landed,
                                ));
                            }
                            k = k + 1;
                        }
                        proof {
                            assert(statuses@.take(statuses@.len() as int) =~= statuses@);
                        }
                    } else {
                        proof {
                            assert(events@ =~= mid_events);
                        }
                    }
                    proof {
                        let d = b.combatants[di as int];
                        let next = EnemyAbilitySnapshot { combatants: state.combatants@, events: events@ };
                        assert(mid[di as int].health == d.health - amount);
                        assert(state.combatants@[di as int].health == d.health - amount);
                        assert(next.combatants == b.combatants.update(di as int, next.combatants[di as int]));
                        assert(enemy_ability_step(attack, gate, hp1, statuses@, source_key, requested, b, next));
                    }
                }
            },
            None => {
                proof {
                    let next = EnemyAbilitySnapshot { combatants: state.combatants@, events: events@ };
                    assert(next == b);
                }
            },
        }
        proof {
            let next = EnemyAbilitySnapshot { combatants: state.combatants@, events: events@ };
            assert(enemy_ability_step(attack, gate, hp1, statuses@, source_key, requested, b, next));
            let old_trace = trace;
            trace = trace.push(next);
            assert forall|k: int|
                0 <= k < t + 1 implies enemy_ability_step(
                    attack,
                    gate,
                    hp1,
                    statuses@,
                    source_key,
                    #[trigger] targets@[k],
                    trace[k],
                    trace[k + 1],
                ) by {
                if k < t {
                    assert(trace[k] == old_trace[k] && trace[k + 1] == old_trace[k + 1]);
                }
            }
        }
        t = t + 1;
    }
    let ghost fb0 = state.feedback_events@;
    let mut k: usize = 0;
    while k < events.len()
        invariant
            k <= events@.len(),
            state.feedback_events@ == fb0 + events@.take(k as int),
            only_health_and_statuses(state.combatants@, st0.combatants@),
            pools_ok(st0.combatants@) ==> pools_ok(state.combatants@),
            state.same_bookkeeping(&st0),
            state.message == st0.message,
            state.transcript == st0.transcript,
            fb0 == st0.feedback_events@,
            state.combatants@ == trace.last().combatants,
        decreases events.len() - k,
    {
        state.feedback_events.push(events[k]);
        assert(events@.take(k + 1) =~= events@.take(k as int).push(events@[k as int]));
        k = k + 1;
    }
    let display = display_ability_name(ability_id);
    state.message = concat4(name.as_str(), " uses ", display.as_str(), "!");
    let mut line = concat4("ENEMY_ABILITY ", id.as_str(), " ", ability_id);
    line.append(" ");
    let list = target_list_text(targets);
    line.append(list.as_str());
    state.transcript.push(line);
    state.phase = BattlePhase::Resolve;
    proof {
        assert(state.feedback_events@.subrange(0, fb0.len() as int) =~= fb0);
        assert(events@.take(events@.len() as int) =~= events@);
        assert(enemy_ability_trace(attack, gate, hp1, statuses@, source_key, targets@, trace));
    }
}

/// What an enemy turn does, from `before` and generator `rng_before` to `after` and
/// `rng_after`: nothing unless an enemy present in the battle is active; a lost battle when
/// the party is down or the enemy finds no target; otherwise the enemy's choice and targets
/// as drawn, then its ability (recorded in the transcript) or its attack on the first target.
#[verifier::opaque]
pub open spec fn enemy_turn_taken(
    before: BattleState,
    after: BattleState,
    rng_before: GameplayRng,
    rng_after: GameplayRng,
) -> bool {
    &&& ({
        let active = before.spec_active_key();
        let enemy_turn = active matches Some(k) && first_index_of(before.combatants@, k) >= 0
            && k.side == BattleSide::Enemy;
        &&& !enemy_turn ==> after == before && rng_after == rng_before
        &&& enemy_turn && side_defeated(before.combatants@, BattleSide::Party)
            ==> after.phase == BattlePhase::Defeat && after.combatants == before.combatants
            && rng_after == rng_before
        &&& enemy_turn ==> after.phase == BattlePhase::Defeat || after.phase == BattlePhase::Resolve
            || after.phase == before.phase
    })
    &&& ({
        let cs = before.combatants@;
        let active = before.spec_active_key();
        let k = active->0;
        let si = first_index_of(cs, k);
        let src = cs[si];
        let (choice, s1) = enemy_choice(
            src,
            before.used_enemy_moves@,
            before.turn_count,
            rng_before.spec_state(),
        );
        let (targets, s2) = enemy_targets(src, cs, chosen_ability(choice), s1);
        active is Some && si >= 0 && k.side == BattleSide::Enemy && !side_defeated(
            cs,
            BattleSide::Party,
        ) ==> {
            &&& targets.len() == 0 ==> after.phase == BattlePhase::Defeat && after.combatants
                == before.combatants && rng_after.spec_state() == s2
            &&& (targets.len() > 0 && choice is Some && choice->0 is Ability)
                ==> after.phase == BattlePhase::Resolve && rng_after.spec_state() == s2
                && after.transcript@.last()@ == enemy_ability_line(
                src.id@,
                chosen_ability(choice),
                targets,
            ) && exists|trace: Seq<EnemyAbilitySnapshot>|
                #[trigger] enemy_ability_trace(
                    src.attack,
                    ability_gate(src, chosen_ability(choice)),
                    ability_hp_to_one(src, chosen_ability(choice)),
                    ability_statuses(chosen_ability(choice), src.attack),
                    k,
                    targets,
                    trace,
                ) && trace[0] == (EnemyAbilitySnapshot { combatants: cs, events: Seq::empty() })
                    && trace.last().combatants == after.combatants@ && after.feedback_events@
                    == before.feedback_events@ + trace.last().events
            &&& (targets.len() > 0 && !(choice is Some && choice->0 is Ability))
                ==> rng_after.spec_state() == crate::battle::resolver::advanced(
                s2,
                crate::battle::resolver::physical_draws(cs, k, targets[0], s2),
            ) && (crate::battle::resolver::physical_outcome(cs, k, targets[0], s2) is Some
                ==> after.phase == BattlePhase::Resolve) && crate::battle::resolver::blow_applied(
                cs,
                after.combatants@,
                crate::battle::resolver::physical_outcome(cs, k, targets[0], s2),
            )
        }
    })
}

/// Runs the active enemy's turn. Nothing happens unless the active combatant is an enemy. When
/// the whole party is down the battle is lost; otherwise the enemy picks its action and its
/// targets, and either attacks the first target or uses its ability on all of them (a
/// once-per-battle ability is then spent); with no target left the battle is lost.
#[verifier::rlimit(40)]
pub fn resolve_enemy_turn(state: &mut BattleState, rng: &mut GameplayRng)
    requires
        forall|i: int| 0 <= i < old(state).combatants@.len() ==> moves_bounded(#[trigger] old(state).combatants@[i]),
    ensures
        only_health_and_statuses(final(state).combatants@, old(state).combatants@),
        pools_ok(old(state).combatants@) ==> pools_ok(final(state).combatants@),
        forall|i: int| 0 <= i < final(state).combatants@.len() ==> moves_bounded(#[trigger] final(state).combatants@[i]),
        final(state).turn_order == old(state).turn_order,
        final(state).active_turn == old(state).active_turn,
        final(state).turn_count == old(state).turn_count,
        ({
            let active = old(state).spec_active_key();
            let enemy_turn = active matches Some(k) && first_index_of(old(state).combatants@, k) >= 0
                && k.side == BattleSide::Enemy;
            &&& !enemy_turn ==> *final(state) == *old(state) && *final(rng) == *old(rng)
            &&& enemy_turn && side_defeated(old(state).combatants@, BattleSide::Party)
                ==> final(state).phase == BattlePhase::Defeat && final(state).combatants
                == old(state).combatants && *final(rng) == *old(rng)
            &&& enemy_turn ==> final(state).phase == BattlePhase::Defeat || final(state).phase
                == BattlePhase::Resolve || final(state).phase == old(state).phase
        }),
        ({
            let cs = old(state).combatants@;
            let active = old(state).spec_active_key();
            let k = active->0;
            let si = first_index_of(cs, k);
            let src = cs[si];
            let (choice, s1) = enemy_choice(
                src,
                old(state).used_enemy_moves@,
                old(state).turn_count,
                old(rng).spec_state(),
            );
            let (targets, s2) = enemy_targets(src, cs, chosen_ability(choice), s1);
            active is Some && si >= 0 && k.side == BattleSide::Enemy && !side_defeated(
                cs,
                BattleSide::Party,
            ) ==> {
                &&& targets.len() == 0 ==> final(state).phase == BattlePhase::Defeat
                    && final(state).combatants == old(state).combatants
                    && final(rng).spec_state() == s2
                &&& (targets.len() > 0 && choice is Some && choice->0 is Ability)
                    ==> final(state).phase == BattlePhase::Resolve && final(rng).spec_state() == s2
                    && final(state).transcript@.last()@ == enemy_ability_line(
                    src.id@,
                    chosen_ability(choice),
                    targets,
                ) && exists|trace: Seq<EnemyAbilitySnapshot>|
                    #[trigger] enemy_ability_trace(
                        src.attack,
                        ability_gate(src, chosen_ability(choice)),
                        ability_hp_to_one(src, chosen_ability(choice)),
                        ability_statuses(chosen_ability(choice), src.attack),
                        k,
                        targets,
                        trace,
                    ) && trace[0] == (EnemyAbilitySnapshot { combatants: cs, events: Seq::empty() })
                        && trace.last().combatants == final(state).combatants@
                        && final(state).feedback_events@ == old(state).feedback_events@
                        + trace.last().events
                &&& (targets.len() > 0 && !(choice is Some && choice->0 is Ability))
                    ==> final(rng).spec_state() == crate::battle::resolver::advanced(
                    s2,
                    crate::battle::resolver::physical_draws(cs, k, targets[0], s2),
                ) && (crate::battle::resolver::physical_outcome(cs, k, targets[0], s2) is Some ==> final(state).phase
                    == BattlePhase::Resolve) && crate::battle::resolver::blow_applied(
                    cs,
                    final(state).combatants@,
                    crate::battle::resolver::physical_outcome(cs, k, targets[0], s2),
                )
            }
        }),
{
    let ghost cs = state.combatants@;
    let source_key = match state.active_key() {
        Some(k) => k,
        None => return,
    };
    proof {
        lemma_first_index_of_bounds(cs, source_key);
    }
    let si = match state.actor_index(source_key) {
        Some(si) => si,
        None => return,
    };
    if state.combatants[si].key.side != BattleSide::Enemy {
        return;
    }
    if state.all_defeated(BattleSide::Party) {
        state.phase = BattlePhase::Defeat;
        return;
    }
    let action = pick_enemy_action(&state.combatants[si], state, rng);
    let ghost s1 = rng.spec_state();
    let targets = match &action {
        EnemyAction::Attack => resolve_targets(&state.combatants[si], state, "", rng),
        EnemyAction::Ability { id, .. } => resolve_targets(&state.combatants[si], state, id.as_str(), rng),
    };
    proof {
        reveal_strlit("");
        let src = cs[si as int];
        let (choice, _) = enemy_choice(src, state.used_enemy_moves@, state.turn_count, old(rng).spec_state());
        let ability = chosen_ability(choice);
        let mode = target_mode(src, ability);
        let pool = target_pool(cs);
        assert(match action {
            EnemyAction::Attack => ""@ == ability,
            EnemyAction::Ability { id, .. } => id@ == ability,
        });
        if mode != EnemyOverrideTarget::SelfTarget && mode != EnemyOverrideTarget::AllParty
            && mode != EnemyOverrideTarget::RandomAlive && pool.len() > 0 {
            let kk = choose|kk: int| picks(pool, mode, kk) && targets@ == seq![pool[kk].key];
            lemma_picks_unique(pool, mode, kk, picked_index(pool, mode));
        }
        assert((targets@, rng.spec_state()) == enemy_targets(src, cs, ability, s1));
    }
    if targets.len() == 0 {
        state.phase = BattlePhase::Defeat;
        return;
    }
    let first = targets[0];
    match action {
        EnemyAction::Attack => {
            let _ = state.resolve_physical(source_key, first, rng);
        },
        EnemyAction::Ability { id, once } => {
            resolve_enemy_ability(state, source_key, id.as_str(), targets.as_slice());
            if once {
                let mut present = false;
                let mut k: usize = 0;
                while k < state.used_enemy_moves.len()
                    invariant
                        k <= state.used_enemy_moves@.len(),
                    decreases state.used_enemy_moves.len() - k,
                {
                    if state.used_enemy_moves[k].0 == source_key && str_equals(state.used_enemy_moves[k].1.as_str(), id.as_str()) {
                        present = true;
                    }
                    k = k + 1;
                }
                if !present {
                    state.used_enemy_moves.push((source_key, id));
                }
            }
        },
    }
    proof {
        assert forall|i: int| 0 <= i < state.combatants@.len() implies moves_bounded(#[trigger] state.combatants@[i]) by {
            assert(state.combatants@[i].same_but_health_and_statuses(&cs[i]));
            assert(moves_bounded(cs[i]));
        }
    }
}

} // verus!
