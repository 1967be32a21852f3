//! Battle participants, phases, commands, and target selection.

use vstd::prelude::*;

use crate::battle::action::BattleEvent;
use crate::battle::rewards::BattleRewards;
use crate::battle::rules::wrap_index;
use crate::battle::status::{ActiveStatus, StatusEffect, StatusPotency, StatusTick};
use crate::scenario_class::{Ability, MYRIAD};
use crate::scenario_enemy::{EnemyBehavior, EnemyDrops, EnemyImmunity, EnemyType};

verus! {

/// Which side of the battle a combatant fights on.
#[derive(Clone, Copy, Debug, PartialEq, Eq, Hash, Structural)]
pub enum BattleSide {
    Party,
    Enemy,
}

/// Where a party member stands. Back-row members strike and are struck at half strength.
#[derive(Clone, Copy, Debug, PartialEq, Eq, Structural)]
pub enum PartyRow {
    Front,
    Back,
}

/// The battle loop's phases.
#[derive(Clone, Copy, Debug, PartialEq, Eq, Structural)]
pub enum BattlePhase {
    Start,
    Command,
    Ability,
    Item,
    Target,
    Resolve,
    Advance,
    Victory,
    Rewards,
    Defeat,
    Flee,
}

impl BattlePhase {
    /// The phase graph: which phase may follow which.
    pub open spec fn spec_allows(self, next: Self) -> bool {
        match self {
            BattlePhase::Start => next == BattlePhase::Command || next == BattlePhase::Resolve
                || next == BattlePhase::Defeat,
            BattlePhase::Command => next == BattlePhase::Ability || next == BattlePhase::Item
                || next == BattlePhase::Target || next == BattlePhase::Victory || next
                == BattlePhase::Flee,
            BattlePhase::Ability => next == BattlePhase::Command || next == BattlePhase::Target
                || next == BattlePhase::Resolve,
            BattlePhase::Item => next == BattlePhase::Command || next == BattlePhase::Target
                || next == BattlePhase::Resolve,
            BattlePhase::Target => next == BattlePhase::Command || next == BattlePhase::Ability
                || next == BattlePhase::Item || next == BattlePhase::Resolve || next
                == BattlePhase::Victory,
            BattlePhase::Resolve => next == BattlePhase::Advance || next == BattlePhase::Victory
                || next == BattlePhase::Defeat,
            BattlePhase::Advance => next == BattlePhase::Command || next == BattlePhase::Resolve
                || next == BattlePhase::Defeat,
            BattlePhase::Victory => next == BattlePhase::Rewards,
            BattlePhase::Rewards | BattlePhase::Defeat => false,
            BattlePhase::Flee => next == BattlePhase::Advance,
        }
    }

    /// Whether `next` may follow this phase.
    pub fn allows(self, next: Self) -> (r: bool)
        ensures
            r == self.spec_allows(next),
    {
        match self {
            BattlePhase::Start => matches!(
                next,
                BattlePhase::Command | BattlePhase::Resolve | BattlePhase::Defeat
            ),
            BattlePhase::Command => matches!(
                next,
                BattlePhase::Ability | BattlePhase::Item | BattlePhase::Target
                    | BattlePhase::Victory | BattlePhase::Flee
            ),
            BattlePhase::Ability => matches!(
                next,
                BattlePhase::Command | BattlePhase::Target | BattlePhase::Resolve
            ),
            BattlePhase::Item => matches!(
                next,
                BattlePhase::Command | BattlePhase::Target | BattlePhase::Resolve
            ),
            BattlePhase::Target => matches!(
                next,
                BattlePhase::Command | BattlePhase::Ability | BattlePhase::Item
                    | BattlePhase::Resolve | BattlePhase::Victory
            ),
            BattlePhase::Resolve => matches!(
                next,
                BattlePhase::Advance | BattlePhase::Victory | BattlePhase::Defeat
            ),
            BattlePhase::Advance => matches!(
                next,
                BattlePhase::Command | BattlePhase::Resolve | BattlePhase::Defeat
            ),
            BattlePhase::Victory => matches!(next, BattlePhase::Rewards),
            BattlePhase::Rewards | BattlePhase::Defeat => false,
            BattlePhase::Flee => matches!(next, BattlePhase::Advance),
        }
    }
}

/// The four top-level battle commands.
#[derive(Clone, Copy, Debug, PartialEq, Eq, Structural)]
pub enum BattleCommand {
    Attack,
    Spell,
    Item,
    Run,
}

impl BattleCommand {
    /// The menu label of each command.
    pub open spec fn spec_label(self) -> Seq<char> {
        match self {
            BattleCommand::Attack => "Attack"@,
            BattleCommand::Spell => "Spell"@,
            BattleCommand::Item => "Item"@,
            BattleCommand::Run => "Run"@,
        }
    }

    /// The menu label of the command.
    pub fn label(self) -> (r: &'static str)
        ensures
            r@ == self.spec_label(),
    {
        match self {
            BattleCommand::Attack => "Attack",
            BattleCommand::Spell => "Spell",
            BattleCommand::Item => "Item",
            BattleCommand::Run => "Run",
        }
    }
}

/// A combatant's identity: its side and its position among that side's participants.
#[derive(Clone, Copy, Debug, PartialEq, Eq, Hash, Structural)]
pub struct CombatantKey {
    pub side: BattleSide,
    pub index: usize,
}

impl CombatantKey {
    /// The key of the `index`th party member.
    pub fn party(index: usize) -> (r: Self)
        ensures
            r == (CombatantKey { side: BattleSide::Party, index }),
    {
        CombatantKey { side: BattleSide::Party, index }
    }

    /// The key of the `index`th enemy.
    pub fn enemy(index: usize) -> (r: Self)
        ensures
            r == (CombatantKey { side: BattleSide::Enemy, index }),
    {
        CombatantKey { side: BattleSide::Enemy, index }
    }
}

/// Rust's `as i64` on a mathematical integer: saturation at the ends of the range.
pub open spec fn clamp_i64(v: int) -> int {
    if v > i64::MAX {
        i64::MAX as int
    } else if v < i64::MIN {
        i64::MIN as int
    } else {
        v
    }
}

/// Rust's `as u32` on a mathematical integer: saturation at the ends of the range.
pub open spec fn clamp_u32(v: int) -> int {
    if v > u32::MAX {
        u32::MAX as int
    } else if v < 0 {
        0
    } else {
        v
    }
}

/// Division that truncates toward zero, as Rust's `/` and float-to-integer casts do.
pub open spec fn div_trunc(a: int, b: int) -> int
    recommends
        b > 0,
{
    if a >= 0 {
        a / b
    } else {
        -((-a) / b)
    }
}

/// `v` scaled by a per-myriad multiplier, truncated toward zero and saturated to `i64`.
pub open spec fn scale_i64(v: int, per_myriad: int) -> int {
    clamp_i64(div_trunc(v * per_myriad, MYRIAD as int))
}

/// `base` after every multiplier carried by a status in `effects`, applied in status order.
pub open spec fn modified(base: int, statuses: Seq<ActiveStatus>, effects: Seq<StatusEffect>) -> int
    decreases statuses.len(),
{
    if statuses.len() == 0 {
        base
    } else {
        let before = modified(base, statuses.drop_last(), effects);
        let status = statuses.last();
        match status.potency {
            StatusPotency::Multiplier(m) => if effects.contains(status.effect) {
                scale_i64(before, m as int)
            } else {
                before
            },
            _ => before,
        }
    }
}

/// The product of the per-myriad multipliers carried by statuses in `effects`, in status order,
/// each step rounded down and saturated to `u64`.
pub open spec fn multiplier_product(statuses: Seq<ActiveStatus>, effects: Seq<StatusEffect>) -> nat
    decreases statuses.len(),
{
    if statuses.len() == 0 {
        MYRIAD as nat
    } else {
        let before = multiplier_product(statuses.drop_last(), effects);
        let status = statuses.last();
        match status.potency {
            StatusPotency::Multiplier(m) => if effects.contains(status.effect) {
                let next = before * m as nat / MYRIAD as nat;
                if next > u64::MAX {
                    u64::MAX as nat
                } else {
                    next
                }
            } else {
                before
            },
            _ => before,
        }
    }
}

/// `amount` after every damage reduction in `statuses`, applied in order and rounded down.
/// A reduction above a whole is read as a whole.
pub open spec fn reduced(amount: nat, statuses: Seq<ActiveStatus>) -> nat
    decreases statuses.len(),
{
    if statuses.len() == 0 {
        amount
    } else {
        let before = reduced(amount, statuses.drop_last());
        match statuses.last().potency {
            StatusPotency::Reduction(r) => {
                let r = if r > MYRIAD {
                    MYRIAD as nat
                } else {
                    r as nat
                };
                before * (MYRIAD as nat - r) as nat / MYRIAD as nat
            },
            _ => before,
        }
    }
}

/// The damage a combatant carrying `statuses` takes from a blow of `amount`: nothing from
/// nothing, otherwise the reduced amount but never less than one.
pub open spec fn mitigated(amount: nat, statuses: Seq<ActiveStatus>) -> nat {
    if amount == 0 {
        0
    } else if reduced(amount, statuses) == 0 {
        1
    } else {
        reduced(amount, statuses)
    }
}

/// Whether some status in `statuses` has `effect`.
pub open spec fn carries(statuses: Seq<ActiveStatus>, effect: StatusEffect) -> bool {
    exists|i: int| 0 <= i < statuses.len() && #[trigger] statuses[i].effect == effect
}

/// `statuses` without any status of `effect`, order kept.
pub open spec fn without_effect(statuses: Seq<ActiveStatus>, effect: StatusEffect) -> Seq<
    ActiveStatus,
>
    decreases statuses.len(),
{
    if statuses.len() == 0 {
        statuses
    } else {
        let rest = without_effect(statuses.drop_last(), effect);
        if statuses.last().effect == effect {
            rest
        } else {
            rest.push(statuses.last())
        }
    }
}

/// The index of the first status with `effect`, if any.
pub open spec fn first_with_effect(statuses: Seq<ActiveStatus>, effect: StatusEffect) -> int
    decreases statuses.len(),
{
    if statuses.len() == 0 {
        -1
    } else {
        let rest = first_with_effect(statuses.drop_last(), effect);
        if rest >= 0 {
            rest
        } else if statuses.last().effect == effect {
            statuses.len() - 1
        } else {
            -1
        }
    }
}

/// `statuses` with `status` added: it replaces the first status of the same effect, or is
/// appended when there is none.
pub open spec fn with_status(statuses: Seq<ActiveStatus>, status: ActiveStatus) -> Seq<
    ActiveStatus,
> {
    let at = first_with_effect(statuses, status.effect);
    if at >= 0 {
        statuses.update(at, status)
    } else {
        statuses.push(status)
    }
}

/// Whether no two statuses in `statuses` share an effect.
pub open spec fn effects_distinct(statuses: Seq<ActiveStatus>) -> bool {
    forall|i: int, j: int|
        0 <= i < j < statuses.len() ==> #[trigger] statuses[i].effect != #[trigger] statuses[j].effect
}

proof fn lemma_first_with_effect_bounds(s: Seq<ActiveStatus>, effect: StatusEffect)
    ensures
        -1 <= first_with_effect(s, effect) < s.len(),
        first_with_effect(s, effect) >= 0 ==> s[first_with_effect(s, effect)].effect == effect,
        first_with_effect(s, effect) == -1 ==> forall|i: int| 0 <= i < s.len() ==> s[i].effect != effect,
    decreases s.len(),
{
    if s.len() > 0 {
        lemma_first_with_effect_bounds(s.drop_last(), effect);
        assert forall|i: int| 0 <= i < s.len() - 1 implies s.drop_last()[i] == s[i] by {}
    }
}

/// Putting a status on keeps the effects distinct: afterwards exactly one status has the new
/// status's effect, and it is that status; every other status is kept as it was.
pub proof fn lemma_with_status_keeps_effects_distinct(statuses: Seq<ActiveStatus>, status: ActiveStatus)
    requires
        effects_distinct(statuses),
    ensures
        effects_distinct(with_status(statuses, status)),
        forall|i: int|
            0 <= i < with_status(statuses, status).len() && #[trigger] with_status(statuses, status)[i].effect
                == status.effect ==> with_status(statuses, status)[i] == status,
        exists|i: int|
            0 <= i < with_status(statuses, status).len() && #[trigger] with_status(statuses, status)[i]
                == status,
        forall|s: ActiveStatus|
            statuses.contains(s) && s.effect != status.effect ==> #[trigger] with_status(statuses, status).contains(s),
{
    lemma_first_with_effect_bounds(statuses, status.effect);
    let r = with_status(statuses, status);
    let at = first_with_effect(statuses, status.effect);
    if at >= 0 {
        assert(r[at] == status);
        assert forall|s: ActiveStatus| statuses.contains(s) && s.effect != status.effect implies #[trigger] r.contains(s) by {
            let k = choose|k: int| 0 <= k < statuses.len() && statuses[k] == s;
            assert(r[k] == s);
        }
    } else {
        assert(r[statuses.len() as int] == status);
        assert forall|s: ActiveStatus| statuses.contains(s) && s.effect != status.effect implies #[trigger] r.contains(s) by {
            let k = choose|k: int| 0 <= k < statuses.len() && statuses[k] == s;
            assert(r[k] == s);
        }
    }
}

/// Whether a status stops its wearer from acting.
pub open spec fn skips_turn(effect: StatusEffect) -> bool {
    effect == StatusEffect::Sleep || effect == StatusEffect::Stun || effect == StatusEffect::Freeze
        || effect == StatusEffect::DamageReduction
}

/// The first status in `statuses` that stops its wearer from acting.
pub open spec fn first_skip(statuses: Seq<ActiveStatus>) -> Option<StatusEffect>
    decreases statuses.len(),
{
    if statuses.len() == 0 {
        None
    } else {
        match first_skip(statuses.drop_last()) {
            Some(e) => Some(e),
            None => if skips_turn(statuses.last().effect) {
                Some(statuses.last().effect)
            } else {
                None
            },
        }
    }
}

/// The combatant named by the first cover status in `statuses`.
pub open spec fn first_redirect(statuses: Seq<ActiveStatus>) -> Option<CombatantKey>
    decreases statuses.len(),
{
    if statuses.len() == 0 {
        None
    } else {
        match first_redirect(statuses.drop_last()) {
            Some(k) => Some(k),
            None => match statuses.last().potency {
                StatusPotency::Redirect(k) => Some(k),
                _ => None,
            },
        }
    }
}

/// The sum of per-turn damage in `statuses`, saturated to `u32`.
pub open spec fn damage_per_turn(statuses: Seq<ActiveStatus>) -> nat
    decreases statuses.len(),
{
    if statuses.len() == 0 {
        0
    } else {
        let before = damage_per_turn(statuses.drop_last());
        match statuses.last().potency {
            StatusPotency::DamagePerTurn(d) => if before + d as nat > u32::MAX {
                u32::MAX as nat
            } else {
                before + d as nat
            },
            _ => before,
        }
    }
}

/// One end-of-turn countdown: a timed status loses a turn, and a status that reaches zero
/// turns is dropped.
pub open spec fn counted_down(statuses: Seq<ActiveStatus>) -> Seq<ActiveStatus>
    decreases statuses.len(),
{
    if statuses.len() == 0 {
        statuses
    } else {
        let rest = counted_down(statuses.drop_last());
        let s = statuses.last();
        match s.remaining_turns {
            None => rest.push(s),
            Some(t) => if t <= 1 {
                rest
            } else {
                rest.push(ActiveStatus { remaining_turns: Some((t - 1) as u32), ..s })
            },
        }
    }
}

/// One participant in a battle.
#[derive(Clone, Debug, PartialEq)]
pub struct BattleCombatant {
    pub key: CombatantKey,
    pub id: String,
    pub name: String,
    pub class_id: String,
    pub health: u32,
    pub max_health: u32,
    pub mana: u32,
    pub max_mana: u32,
    pub attack: i64,
    pub defense: i64,
    pub magic_resistance: i64,
    pub dexterity: i64,
    pub abilities: Vec<Ability>,
    pub status_effects: Vec<ActiveStatus>,
    pub accessory: Option<String>,
    pub row: PartyRow,
    pub boss: bool,
    pub enemy_type: Option<EnemyType>,
    pub immunities: Vec<EnemyImmunity>,
    pub behavior: Option<EnemyBehavior>,
    pub experience_yield: u32,
    pub drops: Option<EnemyDrops>,
}

/// The statuses that scale attack.
pub open spec fn attack_effects() -> Seq<StatusEffect> {
    seq![StatusEffect::AttackModifier, StatusEffect::Knockback]
}

/// The statuses that scale defense.
pub open spec fn defense_effects() -> Seq<StatusEffect> {
    seq![StatusEffect::DefenseModifier]
}

/// The statuses that scale magic resistance.
pub open spec fn resistance_effects() -> Seq<StatusEffect> {
    seq![StatusEffect::MagicResistanceModifier]
}

/// The statuses that scale hit chance.
pub open spec fn hit_effects() -> Seq<StatusEffect> {
    seq![StatusEffect::HitChanceModifier]
}

impl BattleCombatant {
    /// Health never exceeds its maximum, nor mana its maximum.
    pub open spec fn pools_in_range(&self) -> bool {
        self.health <= self.max_health && self.mana <= self.max_mana
    }

    /// Every field but health and statuses is unchanged from `other`.
    pub open spec fn same_but_health_and_statuses(&self, other: &Self) -> bool {
        &&& self.key == other.key
        &&& self.id == other.id
        &&& self.name == other.name
        &&& self.class_id == other.class_id
        &&& self.max_health == other.max_health
        &&& self.mana == other.mana
        &&& self.max_mana == other.max_mana
        &&& self.attack == other.attack
        &&& self.defense == other.defense
        &&& self.magic_resistance == other.magic_resistance
        &&& self.dexterity == other.dexterity
        &&& self.abilities == other.abilities
        &&& self.accessory == other.accessory
        &&& self.row == other.row
        &&& self.boss == other.boss
        &&& self.enemy_type == other.enemy_type
        &&& self.immunities == other.immunities
        &&& self.behavior == other.behavior
        &&& self.experience_yield == other.experience_yield
        &&& self.drops == other.drops
    }

    /// Whether the combatant can still act.
    pub open spec fn alive(&self) -> bool {
        self.health > 0
    }

    /// Whether the combatant can still act.
    pub fn is_alive(&self) -> (r: bool)
        ensures
            r == self.alive(),
    {
        self.health > 0
    }

    /// Damage the combatant takes from a blow of `amount`.
    pub fn mitigated_damage(&self, amount: u32) -> (r: u32)
        ensures
            r == mitigated(amount as nat, self.status_effects@),
            r <= amount,
    {
        let n = self.status_effects.len();
        let mut value: u32 = amount;
        let mut i: usize = 0;
        while i < n
            invariant
                n == self.status_effects@.len(),
                0 <= i <= n,
                value == reduced(amount as nat, self.status_effects@.subrange(0, i as int)),
                value <= amount,
            decreases n - i,
        {
            let ghost prefix = self.status_effects@.subrange(0, i + 1);
            assert(prefix.drop_last() == self.status_effects@.subrange(0, i as int));
            match self.status_effects[i].potency {
                StatusPotency::Reduction(r) => {
                    let r = if r > MYRIAD {
                        MYRIAD
                    } else {
                        r
                    };
                    proof {
                        assert((value as nat) * ((MYRIAD - r) as nat) <= (value as nat) * (
                        MYRIAD as nat)) by (nonlinear_arith)
                            requires
                                r <= MYRIAD,
                        ;
                        assert((value as nat) * (MYRIAD as nat) / (MYRIAD as nat) == value as nat)
                            by (nonlinear_arith);
                        assert((value as nat) * ((MYRIAD - r) as nat) / (MYRIAD as nat) <= (
                        value as nat) * (MYRIAD as nat) / (MYRIAD as nat)) by (nonlinear_arith)
                            requires
                                (value as nat) * ((MYRIAD - r) as nat) <= (value as nat) * (
                                MYRIAD as nat),
                        ;
                    }
                    value = ((value as u64 * (MYRIAD - r) as u64) / MYRIAD as u64) as u32;
                },
                _ => {},
            }
            i = i + 1;
        }
        assert(self.status_effects@.subrange(0, n as int) == self.status_effects@);
        if amount == 0 {
            0
        } else if value == 0 {
            1
        } else {
            value
        }
    }

    /// Lowers health by `amount`, never below zero, and wakes a sleeper that took damage.
    /// Returns the health actually lost.
    pub fn apply_resolved_damage(&mut self, amount: u32) -> (r: u32)
        ensures
            r == if amount <= old(self).health {
                amount
            } else {
                old(self).health
            },
            final(self).health == old(self).health - r,
            final(self).status_effects@ == if r > 0 {
                without_effect(old(self).status_effects@, StatusEffect::Sleep)
            } else {
                old(self).status_effects@
            },
            final(self).same_but_health_and_statuses(old(self)),
    {
        let actual = if amount <= self.health {
            amount
        } else {
            self.health
        };
        self.health = self.health - actual;
        if actual > 0 {
            self.remove_status(StatusEffect::Sleep);
        }
        actual
    }

    /// Mitigates a blow of `amount`, then takes it. Returns the health actually lost.
    pub fn apply_damage(&mut self, amount: u32) -> (r: u32)
        ensures
            r == if mitigated(amount as nat, old(self).status_effects@) <= old(self).health {
                mitigated(amount as nat, old(self).status_effects@)
            } else {
                old(self).health as nat
            },
            final(self).health == old(self).health - r,
            final(self).status_effects@ == if r > 0 {
                without_effect(old(self).status_effects@, StatusEffect::Sleep)
            } else {
                old(self).status_effects@
            },
            final(self).same_but_health_and_statuses(old(self)),
    {
        let amount = self.mitigated_damage(amount);
        self.apply_resolved_damage(amount)
    }

    /// Heals a living combatant by up to `amount`, capped at its maximum. A knocked-out
    /// combatant gains nothing. Returns the health actually restored.
    pub fn apply_heal(&mut self, amount: u32) -> (r: u32)
        requires
            old(self).health <= old(self).max_health,
        ensures
            final(self).health == if !old(self).alive() {
                old(self).health as int
            } else if old(self).health + amount >= old(self).max_health {
                old(self).max_health as int
            } else {
                old(self).health + amount
            },
            r == final(self).health - old(self).health,
            final(self).status_effects == old(self).status_effects,
            final(self).same_but_health_and_statuses(old(self)),
    {
        if !self.is_alive() {
            return 0;
        }
        let before = self.health;
        let raised = self.health.saturating_add(amount);
        self.health = if raised < self.max_health {
            raised
        } else {
            self.max_health
        };
        self.health - before
    }

    /// Restores up to `amount` mana, capped at the maximum. Returns the mana actually restored.
    pub fn restore_mana(&mut self, amount: u32) -> (r: u32)
        requires
            old(self).mana <= old(self).max_mana,
        ensures
            final(self).mana == if old(self).mana + amount >= old(self).max_mana {
                old(self).max_mana as int
            } else {
                old(self).mana + amount
            },
            r == final(self).mana - old(self).mana,
            *final(self) == (BattleCombatant { mana: final(self).mana, ..*old(self) }),
    {
        let before = self.mana;
        let raised = self.mana.saturating_add(amount);
        self.mana = if raised < self.max_mana {
            raised
        } else {
            self.max_mana
        };
        self.mana - before
    }

    /// Pays `amount` mana if the pool holds that much; otherwise changes nothing.
    pub fn spend_mana(&mut self, amount: u32) -> (r: Option<u32>)
        ensures
            r.is_some() <==> old(self).mana >= amount,
            r.is_some() ==> r == Some(amount) && *final(self) == (BattleCombatant {
                mana: (old(self).mana - amount) as u32,
                ..*old(self)
            }),
            r.is_none() ==> *final(self) == *old(self),
    {
        if self.mana >= amount {
            self.mana = self.mana - amount;
            Some(amount)
        } else {
            None
        }
    }

    /// Brings a knocked-out combatant back with `fraction` (per-myriad) of its maximum health,
    /// at least one and at most the maximum. A living combatant, or one whose maximum is zero,
    /// is unchanged. Returns the health it now has, or zero when nothing happened.
    pub fn revive(&mut self, fraction: u32) -> (r: u32)
        ensures
            (old(self).alive() || old(self).max_health == 0) ==> r == 0 && *final(self)
                == *old(self),
            !(old(self).alive() || old(self).max_health == 0) ==> {
                let share = old(self).max_health as nat * fraction as nat / MYRIAD as nat;
                &&& r == if share == 0 {
                    1
                } else if share > old(self).max_health {
                    old(self).max_health as nat
                } else {
                    share
                }
                &&& *final(self) == (BattleCombatant { health: r, ..*old(self) })
            },
    {
        if self.is_alive() || self.max_health == 0 {
            return 0;
        }
        proof {
            assert((self.max_health as nat) * (fraction as nat) <= 0xffff_ffff * 0xffff_ffff)
                by (nonlinear_arith)
                requires
                    self.max_health <= 0xffff_ffff,
                    fraction <= 0xffff_ffff,
            ;
        }
        let share = (self.max_health as u64 * fraction as u64) / MYRIAD as u64;
        let health = if share == 0 {
            1
        } else if share > self.max_health as u64 {
            self.max_health
        } else {
            share as u32
        };
        self.health = health;
        health
    }

    /// Whether a status of `effect` is active.
    pub fn has_status(&self, effect: StatusEffect) -> (r: bool)
        ensures
            r == carries(self.status_effects@, effect),
    {
        let n = self.status_effects.len();
        let mut i: usize = 0;
        while i < n
            invariant
                n == self.status_effects@.len(),
                0 <= i <= n,
                forall|j: int| 0 <= j < i ==> self.status_effects@[j].effect != effect,
            decreases n - i,
        {
            if self.status_effects[i].effect == effect {
                return true;
            }
            i = i + 1;
        }
        false
    }

    /// Applies a status. A construct refuses harmful statuses; otherwise the status replaces an
    /// active one of the same effect, or is appended. Returns whether it was applied.
    pub fn add_status(&mut self, status: ActiveStatus) -> (r: bool)
        ensures
            r == !(old(self).enemy_type == Some(EnemyType::Construct)
                && status.effect.spec_is_harmful()),
            final(self).status_effects@ == if r {
                with_status(old(self).status_effects@, status)
            } else {
                old(self).status_effects@
            },
            final(self).health == old(self).health,
            final(self).same_but_health_and_statuses(old(self)),
            effects_distinct(old(self).status_effects@) ==> effects_distinct(final(self).status_effects@),
    {
        proof {
            if effects_distinct(self.status_effects@) {
                lemma_with_status_keeps_effects_distinct(self.status_effects@, status);
            }
        }
        let construct = match self.enemy_type {
            Some(EnemyType::Construct) => true,
            _ => false,
        };
        if construct && status.effect.is_harmful() {
            return false;
        }
        let n = self.status_effects.len();
        let mut i: usize = 0;
        while i < n
            invariant
                n == self.status_effects@.len(),
                0 <= i <= n,
                first_with_effect(self.status_effects@.subrange(0, i as int), status.effect)
                    == -1,
                *self == *old(self),
                !(old(self).enemy_type == Some(EnemyType::Construct)
                    && status.effect.spec_is_harmful()),
            decreases n - i,
        {
            let ghost prefix = self.status_effects@.subrange(0, i + 1);
            assert(prefix.drop_last() == self.status_effects@.subrange(0, i as int));
            if self.status_effects[i].effect == status.effect {
                proof {
                    lemma_first_with_effect_extends(self.status_effects@, status.effect, i as int);
                }
                self.status_effects.set(i, status);
                return true;
            }
            i = i + 1;
        }
        assert(self.status_effects@.subrange(0, n as int) == self.status_effects@);
        self.status_effects.push(status);
        true
    }

    /// Removes every status of `effect`. Returns whether any was removed.
    pub fn remove_status(&mut self, effect: StatusEffect) -> (r: bool)
        ensures
            final(self).status_effects@ == without_effect(old(self).status_effects@, effect),
            r == carries(old(self).status_effects@, effect),
            final(self).health == old(self).health,
            final(self).same_but_health_and_statuses(old(self)),
    {
        let n = self.status_effects.len();
        let mut kept: Vec<ActiveStatus> = Vec::new();
        let mut removed = false;
        let mut i: usize = 0;
        while i < n
            invariant
                n == self.status_effects@.len(),
                0 <= i <= n,
                kept@ == without_effect(self.status_effects@.subrange(0, i as int), effect),
                removed == carries(self.status_effects@.subrange(0, i as int), effect),
            decreases n - i,
        {
            let ghost prefix = self.status_effects@.subrange(0, i + 1);
            assert(prefix.drop_last() == self.status_effects@.subrange(0, i as int));
            let status = self.status_effects[i];
            if status.effect == effect {
                removed = true;
                assert(prefix[i as int].effect == effect);
            } else {
                kept.push(status);
                assert(carries(prefix, effect) ==> carries(
                    self.status_effects@.subrange(0, i as int),
                    effect,
                )) by {
                    if carries(prefix, effect) {
                        let k = choose|k: int| 0 <= k < prefix.len() && prefix[k].effect == effect;
                        assert(self.status_effects@.subrange(0, i as int)[k].effect == effect);
                    }
                }
            }
            proof {
                if carries(self.status_effects@.subrange(0, i as int), effect) {
                    let k = choose|k: int|
                        0 <= k < i && self.status_effects@.subrange(0, i as int)[k].effect
                            == effect;
                    assert(prefix[k].effect == effect);
                }
            }
            i = i + 1;
        }
        assert(self.status_effects@.subrange(0, n as int) == self.status_effects@);
        self.status_effects = kept;
        removed
    }

    /// Cures every status. Returns how many were removed.
    pub fn clear_statuses(&mut self) -> (r: usize)
        ensures
            r == old(self).status_effects@.len(),
            final(self).status_effects@.len() == 0,
            final(self).health == old(self).health,
            final(self).same_but_health_and_statuses(old(self)),
    {
        let removed = self.status_effects.len();
        self.status_effects = Vec::new();
        removed
    }

    /// Whether silence stops spellcasting.
    pub fn is_silenced(&self) -> (r: bool)
        ensures
            r == carries(self.status_effects@, StatusEffect::Silence),
    {
        self.has_status(StatusEffect::Silence)
    }

    /// Whether a taunt draws enemy attacks to this combatant.
    pub fn is_taunting(&self) -> (r: bool)
        ensures
            r == carries(self.status_effects@, StatusEffect::Taunt),
    {
        self.has_status(StatusEffect::Taunt)
    }

    /// The first active status that costs this combatant its turn.
    pub fn skip_turn_reason(&self) -> (r: Option<StatusEffect>)
        ensures
            r == first_skip(self.status_effects@),
    {
        let n = self.status_effects.len();
        let mut i: usize = 0;
        while i < n
            invariant
                n == self.status_effects@.len(),
                0 <= i <= n,
                first_skip(self.status_effects@.subrange(0, i as int)).is_none(),
            decreases n - i,
        {
            let ghost prefix = self.status_effects@.subrange(0, i + 1);
            assert(prefix.drop_last() == self.status_effects@.subrange(0, i as int));
            let effect = self.status_effects[i].effect;
            if matches!(
                effect,
                StatusEffect::Sleep | StatusEffect::Stun | StatusEffect::Freeze
                    | StatusEffect::DamageReduction
            ) {
                proof {
                    lemma_first_skip_extends(self.status_effects@, i as int);
                }
                return Some(effect);
            }
            i = i + 1;
        }
        assert(self.status_effects@.subrange(0, n as int) == self.status_effects@);
        None
    }

    /// The ally covering this combatant, if a cover status is active.
    pub fn redirected_target(&self) -> (r: Option<CombatantKey>)
        ensures
            r == first_redirect(self.status_effects@),
    {
        let n = self.status_effects.len();
        let mut i: usize = 0;
        while i < n
            invariant
                n == self.status_effects@.len(),
                0 <= i <= n,
                first_redirect(self.status_effects@.subrange(0, i as int)).is_none(),
            decreases n - i,
        {
            let ghost prefix = self.status_effects@.subrange(0, i + 1);
            assert(prefix.drop_last() == self.status_effects@.subrange(0, i as int));
            match self.status_effects[i].potency {
                StatusPotency::Redirect(target) => {
                    proof {
                        lemma_first_redirect_extends(self.status_effects@, i as int);
                    }
                    return Some(target);
                },
                _ => {},
            }
            i = i + 1;
        }
        assert(self.status_effects@.subrange(0, n as int) == self.status_effects@);
        None
    }

    /// Attack after its modifiers, at least one.
    pub open spec fn spec_effective_attack(&self) -> int {
        let m = modified(self.attack as int, self.status_effects@, attack_effects());
        if m < 1 {
            1
        } else {
            m
        }
    }

    /// Defense after its modifiers, at least zero.
    pub open spec fn spec_effective_defense(&self) -> int {
        let m = modified(self.defense as int, self.status_effects@, defense_effects());
        if m < 0 {
            0
        } else {
            m
        }
    }

    /// Magic resistance after its modifiers, at least zero.
    pub open spec fn spec_effective_magic_resistance(&self) -> int {
        let m = modified(self.magic_resistance as int, self.status_effects@, resistance_effects());
        if m < 0 {
            0
        } else {
            m
        }
    }

    /// Attack after its modifiers, at least one.
    pub fn effective_attack(&self) -> (r: i64)
        ensures
            r == self.spec_effective_attack(),
    {
        let effects = [StatusEffect::AttackModifier, StatusEffect::Knockback];
        proof {
            assert(effects@ == attack_effects());
        }
        modified_stat(self.attack, &self.status_effects, &effects, 1)
    }

    /// Defense after its modifiers, at least zero.
    pub fn effective_defense(&self) -> (r: i64)
        ensures
            r == self.spec_effective_defense(),
    {
        let effects = [StatusEffect::DefenseModifier];
        proof {
            assert(effects@ == defense_effects());
        }
        modified_stat(self.defense, &self.status_effects, &effects, 0)
    }

    /// Magic resistance after its modifiers, at least zero.
    pub fn effective_magic_resistance(&self) -> (r: i64)
        ensures
            r == self.spec_effective_magic_resistance(),
    {
        let effects = [StatusEffect::MagicResistanceModifier];
        proof {
            assert(effects@ == resistance_effects());
        }
        modified_stat(self.magic_resistance, &self.status_effects, &effects, 0)
    }

    /// The combined hit-chance multiplier (per-myriad).
    pub fn hit_chance_multiplier(&self) -> (r: u64)
        ensures
            r == multiplier_product(self.status_effects@, hit_effects()),
    {
        let effects = [StatusEffect::HitChanceModifier];
        proof {
            assert(effects@ == hit_effects());
        }
        status_multiplier(&self.status_effects, &effects)
    }

    /// The end-of-turn status tick: per-turn damage is summed (saturating), every timed status
    /// loses a turn and is dropped at zero, and then the summed damage is taken (mitigated).
    pub fn tick_statuses(&mut self) -> (r: StatusTick)
        ensures
            r.damage == tick_taken(*old(self)),
            r.expired == tick_expired(*old(self)),
            final(self).health == old(self).health - tick_taken(*old(self)),
            final(self).status_effects@ == tick_statuses_after(*old(self)),
            final(self).same_but_health_and_statuses(old(self)),
    {
        let n = self.status_effects.len();
        let mut damage: u32 = 0;
        let mut kept: Vec<ActiveStatus> = Vec::new();
        let mut i: usize = 0;
        while i < n
            invariant
                n == self.status_effects@.len(),
                0 <= i <= n,
                damage == damage_per_turn(self.status_effects@.subrange(0, i as int)),
                kept@ == counted_down(self.status_effects@.subrange(0, i as int)),
                kept@.len() <= i,
            decreases n - i,
        {
            let ghost prefix = self.status_effects@.subrange(0, i + 1);
            assert(prefix.drop_last() == self.status_effects@.subrange(0, i as int));
            let status = self.status_effects[i];
            match status.potency {
                StatusPotency::DamagePerTurn(amount) => {
                    damage = damage.saturating_add(amount);
                },
                _ => {},
            }
            match status.remaining_turns {
                None => kept.push(status),
                Some(turns) => {
                    if turns > 1 {
                        kept.push(ActiveStatus { remaining_turns: Some(turns - 1), ..status });
                    }
                },
            }
            i = i + 1;
        }
        assert(self.status_effects@.subrange(0, n as int) == self.status_effects@);
        let gone = n - kept.len();
        let expired = if gone > u32::MAX as usize {
            u32::MAX
        } else {
            gone as u32
        };
        self.status_effects = kept;
        let damage = self.apply_damage(damage);
        StatusTick { damage, expired }
    }
}

/// The health a combatant loses to its end-of-turn status tick: the summed per-turn damage,
/// mitigated by the statuses that remain after the countdown, capped at its health.
pub open spec fn tick_taken(c: BattleCombatant) -> nat {
    let counted = counted_down(c.status_effects@);
    let blow = mitigated(damage_per_turn(c.status_effects@), counted);
    if blow <= c.health {
        blow
    } else {
        c.health as nat
    }
}

/// How many statuses the end-of-turn countdown removes, saturated to `u32`.
pub open spec fn tick_expired(c: BattleCombatant) -> nat {
    let gone = c.status_effects@.len() - counted_down(c.status_effects@).len();
    if gone > u32::MAX {
        u32::MAX as nat
    } else {
        gone as nat
    }
}

/// The statuses a combatant carries after its end-of-turn tick: the countdown, and a sleeper
/// that took damage wakes.
pub open spec fn tick_statuses_after(c: BattleCombatant) -> Seq<ActiveStatus> {
    let counted = counted_down(c.status_effects@);
    if tick_taken(c) > 0 {
        without_effect(counted, StatusEffect::Sleep)
    } else {
        counted
    }
}

/// `base` after every multiplier carried by a status in `effects`, at least `minimum`.
pub fn modified_stat(base: i64, statuses: &Vec<ActiveStatus>, effects: &[StatusEffect], minimum: i64) -> (r: i64)
    ensures
        r == if modified(base as int, statuses@, effects@) < minimum {
            minimum as int
        } else {
            modified(base as int, statuses@, effects@)
        },
{
    let n = statuses.len();
    let mut value: i64 = base;
    let mut i: usize = 0;
    while i < n
        invariant
            n == statuses@.len(),
            0 <= i <= n,
            value == modified(base as int, statuses@.subrange(0, i as int), effects@),
        decreases n - i,
    {
        let ghost prefix = statuses@.subrange(0, i + 1);
        assert(prefix.drop_last() == statuses@.subrange(0, i as int));
        let status = statuses[i];
        match status.potency {
            StatusPotency::Multiplier(m) => {
                if contains_effect(effects, status.effect) {
                    value = scale(value, m);
                }
            },
            _ => {},
        }
        i = i + 1;
    }
    assert(statuses@.subrange(0, n as int) == statuses@);
    if value < minimum {
        minimum
    } else {
        value
    }
}

/// `value * per_myriad / 10_000`, truncated toward zero and saturated to `i64`.
pub fn scale(value: i64, per_myriad: u64) -> (r: i64)
    ensures
        r == scale_i64(value as int, per_myriad as int),
{
    proof {
        assert(-0x8000_0000_0000_0000 * 0xffff_ffff_ffff_ffff <= (value as int) * (
        per_myriad as int) <= 0x7fff_ffff_ffff_ffff * 0xffff_ffff_ffff_ffff) by (nonlinear_arith)
            requires
                -0x8000_0000_0000_0000 <= value <= 0x7fff_ffff_ffff_ffff,
                0 <= per_myriad <= 0xffff_ffff_ffff_ffff,
        ;
    }
    let product = value as i128 * per_myriad as i128;
    let quotient: i128 = if product >= 0 {
        product / MYRIAD as i128
    } else {
        -((-product) / MYRIAD as i128)
    };
    if quotient > i64::MAX as i128 {
        i64::MAX
    } else if quotient < i64::MIN as i128 {
        i64::MIN
    } else {
        quotient as i64
    }
}

/// Whether `effects` lists `effect`.
pub fn contains_effect(effects: &[StatusEffect], effect: StatusEffect) -> (r: bool)
    ensures
        r == effects@.contains(effect),
{
    let n = effects.len();
    let mut i: usize = 0;
    while i < n
        invariant
            n == effects@.len(),
            0 <= i <= n,
            forall|j: int| 0 <= j < i ==> effects@[j] != effect,
        decreases n - i,
    {
        if effects[i] == effect {
            return true;
        }
        i = i + 1;
    }
    false
}

/// The product of the multipliers carried by statuses in `effects` (per-myriad).
pub fn status_multiplier(statuses: &Vec<ActiveStatus>, effects: &[StatusEffect]) -> (r: u64)
    ensures
        r == multiplier_product(statuses@, effects@),
{
    let n = statuses.len();
    let mut value: u64 = MYRIAD as u64;
    let mut i: usize = 0;
    while i < n
        invariant
            n == statuses@.len(),
            0 <= i <= n,
            value == multiplier_product(statuses@.subrange(0, i as int), effects@),
        decreases n - i,
    {
        let ghost prefix = statuses@.subrange(0, i + 1);
        assert(prefix.drop_last() == statuses@.subrange(0, i as int));
        let status = statuses[i];
        match status.potency {
            StatusPotency::Multiplier(m) => {
                if contains_effect(effects, status.effect) {
                    proof {
                        assert((value as nat) * (m as nat) <= 0xffff_ffff_ffff_ffff
                            * 0xffff_ffff_ffff_ffff) by (nonlinear_arith)
                            requires
                                value <= 0xffff_ffff_ffff_ffff,
                                m <= 0xffff_ffff_ffff_ffff,
                        ;
                    }
                    let next = (value as u128 * m as u128) / MYRIAD as u128;
                    value = if next > u64::MAX as u128 {
                        u64::MAX
                    } else {
                        next as u64
                    };
                }
            },
            _ => {},
        }
        i = i + 1;
    }
    assert(statuses@.subrange(0, n as int) == statuses@);
    value
}

proof fn lemma_first_with_effect_extends(s: Seq<ActiveStatus>, effect: StatusEffect, i: int)
    requires
        0 <= i < s.len(),
        first_with_effect(s.subrange(0, i), effect) == -1,
        s[i].effect == effect,
    ensures
        first_with_effect(s, effect) == i,
    decreases s.len(),
{
    if s.len() == i + 1 {
        assert(s.drop_last() == s.subrange(0, i));
    } else {
        assert(s.drop_last().subrange(0, i) == s.subrange(0, i));
        lemma_first_with_effect_extends(s.drop_last(), effect, i);
    }
}

proof fn lemma_first_skip_extends(s: Seq<ActiveStatus>, i: int)
    requires
        0 <= i < s.len(),
        first_skip(s.subrange(0, i)).is_none(),
        skips_turn(s[i].effect),
    ensures
        first_skip(s) == Some(s[i].effect),
    decreases s.len(),
{
    if s.len() == i + 1 {
        assert(s.drop_last() == s.subrange(0, i));
    } else {
        assert(s.drop_last().subrange(0, i) == s.subrange(0, i));
        lemma_first_skip_extends(s.drop_last(), i);
    }
}

proof fn lemma_first_redirect_extends(s: Seq<ActiveStatus>, i: int)
    requires
        0 <= i < s.len(),
        first_redirect(s.subrange(0, i)).is_none(),
        s[i].potency matches StatusPotency::Redirect(_),
    ensures
        first_redirect(s) == Some(
            match s[i].potency {
                StatusPotency::Redirect(k) => k,
                _ => s[i].potency->Redirect_0,
            },
        ),
    decreases s.len(),
{
    if s.len() == i + 1 {
        assert(s.drop_last() == s.subrange(0, i));
    } else {
        assert(s.drop_last().subrange(0, i) == s.subrange(0, i));
        lemma_first_redirect_extends(s.drop_last(), i);
    }
}

/// Which side a target picker draws from.
#[derive(Clone, Copy, Debug, PartialEq, Eq, Structural)]
pub enum TargetGroup {
    Enemy,
    Ally,
}

impl TargetGroup {
    /// The side a group draws from.
    pub open spec fn side(self) -> BattleSide {
        match self {
            TargetGroup::Enemy => BattleSide::Enemy,
            TargetGroup::Ally => BattleSide::Party,
        }
    }
}

/// Whether a combatant may be picked from `side`: living ones, or knocked-out ones when the
/// action revives.
pub open spec fn eligible_on(c: BattleCombatant, side: BattleSide, ko_eligible: bool) -> bool {
    c.key.side == side && c.alive() != ko_eligible
}

/// There are no more eligible keys than combatants.
pub proof fn lemma_eligible_keys_len(combatants: Seq<BattleCombatant>, side: BattleSide, ko_eligible: bool)
    ensures
        eligible_keys(combatants, side, ko_eligible).len() <= combatants.len(),
    decreases combatants.len(),
{
    if combatants.len() > 0 {
        lemma_eligible_keys_len(combatants.drop_last(), side, ko_eligible);
    }
}

/// The keys of the combatants eligible on `side`, in combatant order.
pub open spec fn eligible_keys(
    combatants: Seq<BattleCombatant>,
    side: BattleSide,
    ko_eligible: bool,
) -> Seq<CombatantKey>
    decreases combatants.len(),
{
    if combatants.len() == 0 {
        Seq::empty()
    } else {
        let rest = eligible_keys(combatants.drop_last(), side, ko_eligible);
        if eligible_on(combatants.last(), side, ko_eligible) {
            rest.push(combatants.last().key)
        } else {
            rest
        }
    }
}

/// The keys of the combatants eligible on `side`, in combatant order.
pub fn collect_eligible(combatants: &[BattleCombatant], side: BattleSide, ko_eligible: bool) -> (r: Vec<CombatantKey>)
    ensures
        r@ == eligible_keys(combatants@, side, ko_eligible),
{
    let n = combatants.len();
    let mut keys: Vec<CombatantKey> = Vec::new();
    let mut i: usize = 0;
    while i < n
        invariant
            n == combatants@.len(),
            0 <= i <= n,
            keys@ == eligible_keys(combatants@.subrange(0, i as int), side, ko_eligible),
        decreases n - i,
    {
        let ghost prefix = combatants@.subrange(0, i + 1);
        assert(prefix.drop_last() == combatants@.subrange(0, i as int));
        let actor = &combatants[i];
        if actor.key.side == side && actor.is_alive() != ko_eligible {
            keys.push(actor.key);
        }
        i = i + 1;
    }
    assert(combatants@.subrange(0, n as int) == combatants@);
    keys
}

/// A cursor over the combatants an action may target.
#[derive(Clone, Debug, PartialEq, Eq)]
pub struct TargetSelector {
    pub group: TargetGroup,
    pub eligible: Vec<CombatantKey>,
    pub selected: usize,
}

impl TargetSelector {
    /// A selector is usable when its cursor points into a nonempty pool.
    pub open spec fn well_formed(&self) -> bool {
        self.selected < self.eligible@.len()
    }

    /// A picker over `group`'s living members (or knocked-out ones, for revives), starting at
    /// the first; `None` when nobody is eligible.
    pub fn new(group: TargetGroup, combatants: &[BattleCombatant], ko_eligible: bool) -> (r: Option<Self>)
        ensures
            eligible_keys(combatants@, group.side(), ko_eligible).len() == 0 ==> r.is_none(),
            eligible_keys(combatants@, group.side(), ko_eligible).len() > 0 ==> r.is_some(),
            r matches Some(s) ==> s.group == group && s.selected == 0 && s.eligible@
                == eligible_keys(combatants@, group.side(), ko_eligible),
    {
        let side = match group {
            TargetGroup::Enemy => BattleSide::Enemy,
            TargetGroup::Ally => BattleSide::Party,
        };
        let eligible = collect_eligible(combatants, side, ko_eligible);
        if eligible.len() == 0 {
            None
        } else {
            Some(TargetSelector { group, eligible, selected: 0 })
        }
    }

    /// The combatant under the cursor.
    pub fn selected(&self) -> (r: CombatantKey)
        requires
            self.well_formed(),
        ensures
            r == self.eligible@[self.selected as int],
    {
        self.eligible[self.selected]
    }

    /// Moves the cursor by `movement`, wrapping at both ends.
    pub fn navigate(&mut self, movement: isize)
        requires
            old(self).well_formed(),
        ensures
            final(self).well_formed(),
            final(self).selected as int == (old(self).selected as int + movement as int) % (old(
                self,
            ).eligible@.len() as int),
            final(self).group == old(self).group,
            final(self).eligible == old(self).eligible,
    {
        self.selected = wrap_index(self.selected, movement, self.eligible.len());
    }
}

/// How an escape attempt ended.
#[derive(Clone, Copy, Debug, PartialEq, Eq, Structural)]
pub enum FleeOutcome {
    Success,
    Failed,
    Blocked,
}

/// One usable item in the battle item menu.
#[derive(Clone, Debug, PartialEq, Eq)]
pub struct BattleItemChoice {
    pub id: String,
    pub name: String,
    pub quantity: u32,
}

/// The state of one battle.
#[derive(Debug)]
pub struct BattleState {
    pub phase: BattlePhase,
    pub combatants: Vec<BattleCombatant>,
    pub turn_order: Vec<CombatantKey>,
    pub active_turn: usize,
    /// The battle round, starting at one and rising each time the turn order wraps.
    pub turn_count: u32,
    pub command_index: usize,
    pub ability_index: usize,
    pub pending_ability: Option<usize>,
    pub item_index: usize,
    pub item_choices: Vec<BattleItemChoice>,
    pub pending_item: Option<String>,
    pub target: Option<TargetSelector>,
    pub message: String,
    pub transcript: Vec<String>,
    pub feedback_events: Vec<BattleEvent>,
    /// Once-per-battle enemy moves already spent, by enemy and ability id.
    pub used_enemy_moves: Vec<(CombatantKey, String)>,
    pub rewards: Option<BattleRewards>,
    pub flee_outcome: Option<FleeOutcome>,
}

} // verus!
