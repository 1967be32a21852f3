//! What a battle starts from: the encounter and everyone taking part in it.

use vstd::prelude::*;

use crate::battle::model::{BattleSide, PartyRow};
use crate::scenario_class::Ability;
use crate::scenario_enemy::{EnemyBehavior, EnemyDrops, EnemyImmunity, EnemyType};
use crate::scenario_item::ItemStatus;

verus! {

/// One combatant as the encounter supplies it.
#[derive(Clone, Debug, PartialEq, Eq)]
pub struct BattleParticipant {
    pub side: BattleSide,
    pub id: String,
    pub name: String,
    pub class_id: String,
    pub health: u32,
    pub max_health: u32,
    pub mana: u32,
    pub max_mana: u32,
    pub attack: i64,
    pub defense: i64,
    pub magic_resistance: i64,
    pub dexterity: i64,
    pub abilities: Vec<Ability>,
    /// Statuses carried into battle from the field.
    pub status_effects: Vec<ItemStatus>,
    pub accessory: Option<String>,
    pub row: PartyRow,
    pub boss: bool,
    pub enemy_type: Option<EnemyType>,
    pub immunities: Vec<EnemyImmunity>,
    pub behavior: Option<EnemyBehavior>,
    pub experience_yield: u32,
    pub drops: Option<EnemyDrops>,
}

/// An encounter about to be fought.
#[derive(Clone, Debug, PartialEq, Eq)]
pub struct BattleEntry {
    pub encounter_id: String,
    /// Everyone taking part, party and enemies, in authored order.
    pub participants: Vec<BattleParticipant>,
}

} // verus!
