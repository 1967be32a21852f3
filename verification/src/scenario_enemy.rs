//! Enemy data as the battle rules read it: taxonomy, behavior, targeting, and drops.

use vstd::prelude::*;

use crate::scenario_balance::PositiveInteger;
use crate::scenario_class::UnitInterval;
use crate::scenario_recipe::MagicCoreSize;

verus! {

/// Enemy taxonomy. Holy magic bites undead and demons; constructs shrug off harmful statuses.
#[derive(Clone, Copy, Debug, PartialEq, Eq, Structural)]
pub enum EnemyType {
    Beast,
    Humanoid,
    Undead,
    Demon,
    Construct,
}

/// Effects an enemy is immune to.
#[derive(Clone, Copy, Debug, PartialEq, Eq, Structural)]
pub enum EnemyImmunity {
    InstantKill,
}

/// How an enemy picks its moves.
#[derive(Clone, Copy, Debug, PartialEq, Eq, Structural)]
pub enum EnemyAiPattern {
    /// Every unused move is eligible.
    Random,
    /// Only moves whose condition holds are eligible.
    Conditional,
}

/// Fires while health is below a share of the maximum.
#[derive(Clone, Copy, Debug, PartialEq, Eq, Structural)]
pub struct HpBelowCondition {
    pub hp_pct_below: UnitInterval,
}

/// Fires on every `every`th battle round.
#[derive(Clone, Copy, Debug, PartialEq, Eq, Structural)]
pub struct TurnMod {
    pub every: PositiveInteger,
}

/// Fires on every `turn_mod.every`th battle round.
#[derive(Clone, Copy, Debug, PartialEq, Eq, Structural)]
pub struct TurnModuloCondition {
    pub turn_mod: TurnMod,
}

/// When a conditional move is eligible.
#[derive(Clone, Copy, Debug, PartialEq, Eq, Structural)]
pub enum EnemyMoveCondition {
    HpBelow(HpBelowCondition),
    TurnModulo(TurnModuloCondition),
}

/// One weighted entry of an enemy's move list.
#[derive(Clone, Debug, PartialEq, Eq)]
pub enum EnemyMove {
    Attack { weight: PositiveInteger, condition: Option<EnemyMoveCondition> },
    Ability { id: String, weight: PositiveInteger, condition: Option<EnemyMoveCondition>, once: bool },
}

/// An enemy's move list and how it is consulted.
#[derive(Clone, Debug, PartialEq, Eq)]
pub struct EnemyAi {
    pub pattern: EnemyAiPattern,
    pub moves: Vec<EnemyMove>,
}

/// The default choice of target.
#[derive(Clone, Copy, Debug, PartialEq, Eq, Structural)]
pub enum EnemyDefaultTarget {
    RandomAlive,
    LowestHp,
    HighestHp,
}

/// Every way an override may choose targets.
#[derive(Clone, Copy, Debug, PartialEq, Eq, Structural)]
pub enum EnemyOverrideTarget {
    RandomAlive,
    LowestHp,
    HighestHp,
    HighestDex,
    AllParty,
    SelfTarget,
}

/// What a blocked ability does.
#[derive(Clone, Copy, Debug, PartialEq, Eq, Structural)]
pub enum AbilityBlockedOutcome {
    NoEffect,
}

/// What an unblocked, accessory-gated ability does.
#[derive(Clone, Copy, Debug, PartialEq, Eq, Structural)]
pub enum AbilityHitOutcome {
    Normal,
    HpTo1,
}

/// A per-ability target override.
#[derive(Clone, Debug, PartialEq, Eq)]
pub struct StandardTargetOverride {
    pub ability: String,
    pub target: EnemyOverrideTarget,
}

/// A per-ability target override that a named accessory blocks.
#[derive(Clone, Debug, PartialEq, Eq)]
pub struct AccessoryBlockedTargetOverride {
    pub ability: String,
    pub target: EnemyOverrideTarget,
    pub blocked_by_accessory: String,
    pub on_blocked: AbilityBlockedOutcome,
    pub on_hit: AbilityHitOutcome,
}

/// The two override shapes.
#[derive(Clone, Debug, PartialEq, Eq)]
pub enum EnemyTargetOverride {
    Standard(StandardTargetOverride),
    AccessoryBlocked(AccessoryBlockedTargetOverride),
}

/// An enemy's targeting rules.
#[derive(Clone, Debug, PartialEq, Eq)]
pub struct EnemyTargeting {
    pub default: EnemyDefaultTarget,
    pub overrides: Vec<EnemyTargetOverride>,
}

/// Behavior authored inline, or by reference to a shared move set.
#[derive(Clone, Debug, PartialEq, Eq)]
pub enum EnemyBehavior {
    Inline { ai: EnemyAi, targeting: EnemyTargeting },
    Referenced { id: String },
}

/// A guaranteed magic-core drop.
#[derive(Clone, Copy, Debug, PartialEq, Eq, Structural)]
pub struct MagicCoreDrop {
    pub size: MagicCoreSize,
    pub qty: PositiveInteger,
}

/// One weighted item in a loot pool.
#[derive(Clone, Debug, PartialEq, Eq)]
pub struct EnemyLootEntry {
    pub item: String,
    pub weight: PositiveInteger,
}

/// A pool from which one item is drawn.
#[derive(Clone, Debug, PartialEq, Eq)]
pub struct EnemyLootPool {
    pub pool: Vec<EnemyLootEntry>,
}

/// Everything an enemy drops when beaten.
#[derive(Clone, Debug, PartialEq, Eq)]
pub struct EnemyDrops {
    pub mc: Vec<MagicCoreDrop>,
    pub loot: Vec<EnemyLootPool>,
}

} // verus!
