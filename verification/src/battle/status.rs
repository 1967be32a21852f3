//! Timed and persistent battle statuses.

use vstd::prelude::*;

use crate::battle::model::CombatantKey;
use crate::scenario_item::ItemStatus;

verus! {

/// Every status a combatant can carry.
#[derive(Clone, Copy, Debug, PartialEq, Eq, Structural)]
pub enum StatusEffect {
    Poison,
    Sleep,
    Stun,
    Silence,
    Burn,
    Freeze,
    Knockback,
    Taunt,
    AttackModifier,
    DefenseModifier,
    MagicResistanceModifier,
    HitChanceModifier,
    DamageReduction,
    RedirectDamage,
}

impl StatusEffect {
    /// The statuses that weaken their wearer, which constructs shrug off.
    pub open spec fn spec_is_harmful(self) -> bool {
        match self {
            StatusEffect::Poison | StatusEffect::Sleep | StatusEffect::Stun
            | StatusEffect::Silence | StatusEffect::Burn | StatusEffect::Freeze
            | StatusEffect::Knockback | StatusEffect::AttackModifier
            | StatusEffect::DefenseModifier | StatusEffect::MagicResistanceModifier
            | StatusEffect::HitChanceModifier => true,
            StatusEffect::Taunt | StatusEffect::DamageReduction
            | StatusEffect::RedirectDamage => false,
        }
    }

    /// Whether this status weakens its wearer.
    pub fn is_harmful(self) -> (r: bool)
        ensures
            r == self.spec_is_harmful(),
    {
        match self {
            StatusEffect::Poison | StatusEffect::Sleep | StatusEffect::Stun
            | StatusEffect::Silence | StatusEffect::Burn | StatusEffect::Freeze
            | StatusEffect::Knockback | StatusEffect::AttackModifier
            | StatusEffect::DefenseModifier | StatusEffect::MagicResistanceModifier
            | StatusEffect::HitChanceModifier => true,
            StatusEffect::Taunt | StatusEffect::DamageReduction
            | StatusEffect::RedirectDamage => false,
        }
    }

    /// The battle status an item-side status names.
    pub open spec fn spec_from_item(value: ItemStatus) -> StatusEffect {
        match value {
            ItemStatus::Poison => StatusEffect::Poison,
            ItemStatus::Silence => StatusEffect::Silence,
            ItemStatus::Sleep => StatusEffect::Sleep,
        }
    }

    /// Converts an item-side status into the battle status it names.
    pub fn from_item(value: ItemStatus) -> (r: StatusEffect)
        ensures
            r == Self::spec_from_item(value),
    {
        match value {
            ItemStatus::Poison => StatusEffect::Poison,
            ItemStatus::Silence => StatusEffect::Silence,
            ItemStatus::Sleep => StatusEffect::Sleep,
        }
    }
}

/// What a status does each turn or to a stat.
#[derive(Clone, Copy, Debug, PartialEq, Eq, Structural)]
pub enum StatusPotency {
    Inert,
    DamagePerTurn(u32),
    /// A stat multiplier in per-myriad units.
    Multiplier(u64),
    /// A share of incoming damage removed, in per-myriad units.
    Reduction(u32),
    Redirect(CombatantKey),
}

/// One status on one combatant, with the turns it has left (`None` lasts until cured).
#[derive(Clone, Copy, Debug, PartialEq, Eq, Structural)]
pub struct ActiveStatus {
    pub effect: StatusEffect,
    pub remaining_turns: Option<u32>,
    pub potency: StatusPotency,
}

impl ActiveStatus {
    /// A status that lasts `turns` turns and does nothing by itself each turn.
    pub fn timed(effect: StatusEffect, turns: u32) -> (r: Self)
        ensures
            r == (ActiveStatus { effect, remaining_turns: Some(turns), potency: StatusPotency::Inert }),
    {
        ActiveStatus { effect, remaining_turns: Some(turns), potency: StatusPotency::Inert }
    }

    /// A status that lasts until it is cured.
    pub fn persistent(effect: StatusEffect) -> (r: Self)
        ensures
            r == (ActiveStatus { effect, remaining_turns: None, potency: StatusPotency::Inert }),
    {
        ActiveStatus { effect, remaining_turns: None, potency: StatusPotency::Inert }
    }

    /// A status that deals `damage` at the end of each of its wearer's turns.
    pub fn damage_over_time(effect: StatusEffect, turns: Option<u32>, damage: u32) -> (r: Self)
        ensures
            r == (ActiveStatus {
                effect,
                remaining_turns: turns,
                potency: StatusPotency::DamagePerTurn(damage),
            }),
    {
        ActiveStatus { effect, remaining_turns: turns, potency: StatusPotency::DamagePerTurn(damage) }
    }

    /// A timed stat multiplier (per-myriad).
    pub fn modifier(effect: StatusEffect, turns: u32, multiplier: u64) -> (r: Self)
        ensures
            r == (ActiveStatus {
                effect,
                remaining_turns: Some(turns),
                potency: StatusPotency::Multiplier(multiplier),
            }),
    {
        ActiveStatus {
            effect,
            remaining_turns: Some(turns),
            potency: StatusPotency::Multiplier(multiplier),
        }
    }

    /// A timed damage reduction (per-myriad).
    pub fn reduction(turns: u32, reduction: u32) -> (r: Self)
        ensures
            r == (ActiveStatus {
                effect: StatusEffect::DamageReduction,
                remaining_turns: Some(turns),
                potency: StatusPotency::Reduction(reduction),
            }),
    {
        ActiveStatus {
            effect: StatusEffect::DamageReduction,
            remaining_turns: Some(turns),
            potency: StatusPotency::Reduction(reduction),
        }
    }

    /// A timed cover: physical blows aimed at the wearer land on `source` instead.
    pub fn redirect(turns: u32, source: CombatantKey) -> (r: Self)
        ensures
            r == (ActiveStatus {
                effect: StatusEffect::RedirectDamage,
                remaining_turns: Some(turns),
                potency: StatusPotency::Redirect(source),
            }),
    {
        ActiveStatus {
            effect: StatusEffect::RedirectDamage,
            remaining_turns: Some(turns),
            potency: StatusPotency::Redirect(source),
        }
    }
}

/// What one end-of-turn status tick did.
#[derive(Clone, Copy, Debug, Default, PartialEq, Eq, Structural)]
pub struct StatusTick {
    pub damage: u32,
    pub expired: u32,
}

} // verus!
