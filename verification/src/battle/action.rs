//! Resolved battle actions and the events they produce.

use vstd::prelude::*;

use crate::battle::model::CombatantKey;
use crate::battle::status::{ActiveStatus, StatusEffect};
use crate::scenario_class::AbilityElement;
use crate::scenario_item::ItemElement;

verus! {

/// An action a combatant takes against another.
#[derive(Clone, Copy, Debug, PartialEq, Eq, Structural)]
pub enum BattleAction {
    Physical { attacker: CombatantKey, target: CombatantKey },
}

impl BattleAction {
    /// The acting combatant.
    pub open spec fn spec_attacker(self) -> CombatantKey {
        match self {
            BattleAction::Physical { attacker, .. } => attacker,
        }
    }

    /// The combatant acted upon.
    pub open spec fn spec_target(self) -> CombatantKey {
        match self {
            BattleAction::Physical { target, .. } => target,
        }
    }

    /// The acting combatant.
    pub fn attacker(self) -> (r: CombatantKey)
        ensures
            r == self.spec_attacker(),
    {
        match self {
            BattleAction::Physical { attacker, .. } => attacker,
        }
    }

    /// The combatant acted upon.
    pub fn target(self) -> (r: CombatantKey)
        ensures
            r == self.spec_target(),
    {
        match self {
            BattleAction::Physical { target, .. } => target,
        }
    }
}

/// One observable outcome of battle resolution, for feedback and audio.
#[derive(Clone, Copy, Debug, PartialEq, Eq, Structural)]
pub enum BattleEvent {
    Miss { action: BattleAction },
    Damage { action: BattleAction, amount: u32, critical: bool, knocked_out: bool },
    MagicDamage {
        source: CombatantKey,
        target: CombatantKey,
        element: AbilityElement,
        amount: u32,
        knocked_out: bool,
    },
    ItemDamage {
        source: CombatantKey,
        target: CombatantKey,
        element: ItemElement,
        amount: u32,
        knocked_out: bool,
    },
    EnemyAbilityDamage { source: CombatantKey, target: CombatantKey, amount: u32, knocked_out: bool },
    EnemyAbilityBlocked { source: CombatantKey, target: CombatantKey },
    Heal { source: CombatantKey, target: CombatantKey, amount: u32, revived: bool },
    ManaRestored { source: CombatantKey, target: CombatantKey, amount: u32 },
    StatusApplied { source: CombatantKey, target: CombatantKey, status: ActiveStatus },
    StatusCured { source: CombatantKey, target: CombatantKey, effect: Option<StatusEffect> },
    StatusDamage { target: CombatantKey, effect: StatusEffect, amount: u32, knocked_out: bool },
}

} // verus!
