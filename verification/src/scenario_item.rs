//! Item catalog shapes.
//!
//! Metadata records are classified by their nine `type` discriminants. Consumable, key-item,
//! accessory, and field-use effects are further classified by closed shapes, so unrelated values
//! cannot be combined in a bag of optional fields. Every record carries an explicit `id`.

use vstd::prelude::*;

use crate::scenario_balance::PositiveInteger;
use crate::scenario_class::UnitInterval;

verus! {

/// One list-root metadata catalog.
#[derive(Clone, Debug, PartialEq)]
pub struct ItemCatalogFile(pub Vec<ItemDefinition>);

impl ItemCatalogFile {
    /// The records in authored order.
    pub fn entries(&self) -> (r: &[ItemDefinition])
        ensures
            r@ == self.0@,
    {
        self.0.as_slice()
    }
}

/// The nine metadata item types.
#[derive(Clone, Debug, PartialEq)]
pub enum ItemDefinition {
    Consumable(ConsumableItem),
    Material(MaterialItem),
    Key(KeyItem),
    MagicCore(MagicCoreItem),
    Weapon(WeaponItem),
    Shield(ShieldItem),
    Helmet(HelmetItem),
    Body(BodyItem),
    Accessory(AccessoryItem),
}

impl ItemDefinition {
    /// The identity of whichever record this is.
    pub open spec fn spec_id(&self) -> String {
        match self {
            ItemDefinition::Consumable(item) => item.id,
            ItemDefinition::Material(item) => item.id,
            ItemDefinition::Key(item) => item.id,
            ItemDefinition::MagicCore(item) => item.id,
            ItemDefinition::Weapon(item) => item.id,
            ItemDefinition::Shield(item) => item.id,
            ItemDefinition::Helmet(item) => item.id,
            ItemDefinition::Body(item) => item.id,
            ItemDefinition::Accessory(item) => item.id,
        }
    }

    /// The identity of whichever record this is.
    pub fn id(&self) -> (r: &str)
        ensures
            r@ == self.spec_id()@,
    {
        match self {
            ItemDefinition::Consumable(item) => item.id.as_str(),
            ItemDefinition::Material(item) => item.id.as_str(),
            ItemDefinition::Key(item) => item.id.as_str(),
            ItemDefinition::MagicCore(item) => item.id.as_str(),
            ItemDefinition::Weapon(item) => item.id.as_str(),
            ItemDefinition::Shield(item) => item.id.as_str(),
            ItemDefinition::Helmet(item) => item.id.as_str(),
            ItemDefinition::Body(item) => item.id.as_str(),
            ItemDefinition::Accessory(item) => item.id.as_str(),
        }
    }
}

#[derive(Clone, Debug, PartialEq)]
pub struct ConsumableItem {
    pub id: String,
    pub name: String,
    pub use_context: Vec<ItemUseContext>,
    pub effect: ConsumableEffect,
    pub buy_price: Option<u32>,
    pub sell_price: u32,
    pub description: String,
}

#[derive(Clone, Debug, PartialEq, Eq)]
pub struct MaterialItem {
    pub id: String,
    pub name: String,
    pub sell_price: u32,
    pub description: String,
}

#[derive(Clone, Debug, PartialEq)]
pub struct KeyItem {
    pub id: String,
    pub name: String,
    pub usable: bool,
    pub use_context: Option<Vec<ItemUseContext>>,
    pub effect: KeyItemEffect,
    pub sellable: bool,
    pub droppable: bool,
    pub description: String,
}

#[derive(Clone, Debug, PartialEq, Eq)]
pub struct MagicCoreItem {
    pub id: String,
    pub name: String,
    pub tags: Vec<ItemTag>,
    pub exchange_rate: PositiveInteger,
    pub description: String,
}

#[derive(Clone, Debug, PartialEq, Eq)]
pub struct WeaponItem {
    pub id: String,
    pub name: String,
    pub slot_category: String,
    pub stats: WeaponStats,
    pub buy_price: Option<u32>,
    pub sell_price: Option<u32>,
    pub description: String,
}

#[derive(Clone, Debug, PartialEq, Eq)]
pub struct ShieldItem {
    pub id: String,
    pub name: String,
    pub slot_category: String,
    pub stats: ShieldStats,
    pub buy_price: Option<u32>,
    pub sell_price: Option<u32>,
    pub description: String,
}

#[derive(Clone, Debug, PartialEq, Eq)]
pub struct HelmetItem {
    pub id: String,
    pub name: String,
    pub slot_category: String,
    pub stats: HelmetStats,
    pub buy_price: Option<u32>,
    pub sell_price: Option<u32>,
    pub description: String,
}

#[derive(Clone, Debug, PartialEq, Eq)]
pub struct BodyItem {
    pub id: String,
    pub name: String,
    pub slot_category: String,
    pub stats: BodyStats,
    pub buy_price: Option<u32>,
    pub sell_price: Option<u32>,
    pub description: String,
}

#[derive(Clone, Debug, PartialEq)]
pub struct AccessoryItem {
    pub id: String,
    pub name: String,
    pub equippable: Vec<String>,
    pub stats: AccessoryStats,
    pub buy_price: Option<u32>,
    pub sell_price: Option<u32>,
    pub description: String,
}

/// Closed nested effect shapes of consumables.
#[derive(Clone, Debug, PartialEq)]
pub enum ConsumableEffect {
    Throw(ThrowEffect),
    BypassBarrier(BypassBarrierEffect),
    Rest(RestEffect),
    Action(ItemActionEffect),
    FullRecovery(FullRecoveryEffect),
    RestoreHp(RestoreHpEffect),
    RestoreMp(RestoreMpEffect),
    Revive(ReviveEffect),
    Cure(CureEffect),
}

#[derive(Clone, Debug, PartialEq, Eq)]
pub struct ThrowEffect {
    pub damage: PositiveInteger,
    pub element: ItemElement,
    pub target: ThrowTarget,
    pub bonus_vs: Option<Vec<EnemyTrait>>,
}

#[derive(Clone, Debug, PartialEq, Eq)]
pub struct BypassBarrierEffect {
    pub bypass_barrier: bool,
}

#[derive(Clone, Debug, PartialEq, Eq)]
pub struct RestEffect {
    pub restore: [RecoveryPool; 2],
    pub cure: Vec<ItemStatus>,
}

#[derive(Clone, Debug, PartialEq, Eq)]
pub struct ItemActionEffect {
    pub action: ItemAction,
}

#[derive(Clone, Debug, PartialEq, Eq)]
pub struct FullRecoveryEffect {
    pub restore_hp: FullValue,
    pub restore_mp: FullValue,
}

#[derive(Clone, Debug, PartialEq, Eq)]
pub struct RestoreHpEffect {
    pub restore_hp: PositiveInteger,
}

#[derive(Clone, Debug, PartialEq, Eq)]
pub struct RestoreMpEffect {
    pub restore_mp: PositiveInteger,
}

#[derive(Clone, Debug, PartialEq)]
pub struct ReviveEffect {
    pub revive_hp_pct: UnitInterval,
}

#[derive(Clone, Debug, PartialEq, Eq)]
pub struct CureEffect {
    pub cure: Vec<ItemStatus>,
}

/// The two key-item effect shapes.
#[derive(Clone, Debug, PartialEq)]
pub enum KeyItemEffect {
    Revive(ReviveEffect),
    Unlock(UnlockEffect),
}

#[derive(Clone, Debug, PartialEq, Eq)]
pub struct UnlockEffect {
    pub unlock_flag: String,
}

#[derive(Clone, Debug, PartialEq, Eq)]
pub struct WeaponStats {
    pub strength: Option<i32>,
    pub dex: Option<i32>,
    pub intelligence: Option<i32>,
}

#[derive(Clone, Debug, PartialEq, Eq)]
pub struct ShieldStats {
    pub con: i32,
    pub dex: Option<i32>,
}

#[derive(Clone, Debug, PartialEq, Eq)]
pub enum HelmetStats {
    Constitution(HelmetConstitutionStats),
    Intelligence(HelmetIntelligenceStats),
}

#[derive(Clone, Debug, PartialEq, Eq)]
pub struct HelmetConstitutionStats {
    pub con: i32,
}

#[derive(Clone, Debug, PartialEq, Eq)]
pub struct HelmetIntelligenceStats {
    pub intelligence: i32,
}

#[derive(Clone, Debug, PartialEq, Eq)]
pub struct BodyStats {
    pub con: i32,
    pub dex: Option<i32>,
    pub intelligence: Option<i32>,
}

#[derive(Clone, Debug, PartialEq)]
pub enum AccessoryStats {
    Encounter(EncounterModifierStats),
    AbilityBlock(AbilityBlockStats),
}

#[derive(Clone, Debug, PartialEq)]
pub struct EncounterModifierStats {
    pub encounter_modifier: SignedUnitInterval,
}

#[derive(Clone, Debug, PartialEq, Eq)]
pub struct AbilityBlockStats {
    pub blocks_ability: String,
}

#[derive(Clone, Copy, Debug, PartialEq, Eq, Structural)]
pub enum ItemUseContext {
    Battle,
    WorldMap,
    Town,
    Dungeon,
}

#[derive(Clone, Copy, Debug, PartialEq, Eq, Structural)]
pub enum ItemTag {
    MagicCore,
}

#[derive(Clone, Copy, Debug, PartialEq, Eq, Structural)]
pub enum ItemElement {
    Fire,
    Water,
    Wind,
    Holy,
}

#[derive(Clone, Copy, Debug, PartialEq, Eq, Structural)]
pub enum ThrowTarget {
    SingleEnemy,
}

#[derive(Clone, Copy, Debug, PartialEq, Eq, Structural)]
pub enum EnemyTrait {
    Undead,
    Demon,
}

#[derive(Clone, Copy, Debug, PartialEq, Eq, Structural)]
pub enum RecoveryPool {
    Hp,
    Mp,
}

#[derive(Clone, Copy, Debug, PartialEq, Eq, Structural)]
pub enum ItemStatus {
    Poison,
    Silence,
    Sleep,
}

#[derive(Clone, Copy, Debug, PartialEq, Eq, Structural)]
pub enum ItemAction {
    Warp,
}

#[derive(Clone, Copy, Debug, PartialEq, Eq, Structural)]
pub enum FullValue {
    Full,
}

/// A value in the inclusive range `-1..=1`, stored in per-myriad units (`-10_000..=10_000`).
#[derive(Clone, Copy, Debug, PartialEq, Eq, Structural)]
pub struct SignedUnitInterval {
    per_myriad: i32,
}

impl SignedUnitInterval {
    #[verifier::type_invariant]
    spec fn in_range(self) -> bool {
        -10_000 <= self.per_myriad <= 10_000
    }

    /// The value in per-myriad units.
    pub closed spec fn value(self) -> int {
        self.per_myriad as int
    }

    /// Accepts a per-myriad value in `-10_000..=10_000`.
    pub fn new(per_myriad: i32) -> (r: Option<Self>)
        ensures
            r.is_some() <==> -10_000 <= per_myriad <= 10_000,
            r matches Some(v) ==> v.value() == per_myriad,
    {
        if -10_000 <= per_myriad && per_myriad <= 10_000 {
            Some(SignedUnitInterval { per_myriad })
        } else {
            None
        }
    }

    /// The value in per-myriad units.
    pub fn get(self) -> (r: i32)
        ensures
            r == self.value(),
            -10_000 <= r <= 10_000,
    {
        proof {
            use_type_invariant(&self);
        }
        self.per_myriad
    }
}

/// The separate field-use dispatch catalog.
#[derive(Clone, Debug, PartialEq)]
pub struct FieldUseCatalogFile(pub Vec<FieldUseDefinition>);

impl FieldUseCatalogFile {
    /// The entries in authored order.
    pub fn entries(&self) -> (r: &[FieldUseDefinition])
        ensures
            r@ == self.0@,
    {
        self.0.as_slice()
    }
}

/// Field-menu and battle dispatch variants. An omitted `consumable` reads as `true`.
#[allow(inconsistent_fields)]
#[derive(Clone, Debug, PartialEq)]
pub enum FieldUseDefinition {
    RestoreHp { id: String, amount: PositiveInteger, target: SingleAliveTarget, consumable: bool },
    RestoreMp { id: String, amount: PositiveInteger, target: SingleAliveTarget, consumable: bool },
    RestoreFull {
        id: String,
        target: FullRecoveryTarget,
        cures: Vec<ItemStatus>,
        consumable: bool,
    },
    Cure { id: String, cures: Vec<ItemStatus>, target: SingleAliveTarget, consumable: bool },
    Revive {
        id: String,
        revive_hp_pct: UnitInterval,
        target: SingleKoTarget,
        consumable: bool,
    },
}

impl FieldUseDefinition {
    /// The entry's identity.
    pub open spec fn spec_id(&self) -> String {
        match self {
            FieldUseDefinition::RestoreHp { id, .. } => *id,
            FieldUseDefinition::RestoreMp { id, .. } => *id,
            FieldUseDefinition::RestoreFull { id, .. } => *id,
            FieldUseDefinition::Cure { id, .. } => *id,
            FieldUseDefinition::Revive { id, .. } => *id,
        }
    }

    /// The entry's identity.
    pub fn id(&self) -> (r: &str)
        ensures
            r@ == self.spec_id()@,
    {
        match self {
            FieldUseDefinition::RestoreHp { id, .. } => id.as_str(),
            FieldUseDefinition::RestoreMp { id, .. } => id.as_str(),
            FieldUseDefinition::RestoreFull { id, .. } => id.as_str(),
            FieldUseDefinition::Cure { id, .. } => id.as_str(),
            FieldUseDefinition::Revive { id, .. } => id.as_str(),
        }
    }

    /// Whether using the entry spends it.
    pub open spec fn spec_consumable(&self) -> bool {
        match self {
            FieldUseDefinition::RestoreHp { consumable, .. } => *consumable,
            FieldUseDefinition::RestoreMp { consumable, .. } => *consumable,
            FieldUseDefinition::RestoreFull { consumable, .. } => *consumable,
            FieldUseDefinition::Cure { consumable, .. } => *consumable,
            FieldUseDefinition::Revive { consumable, .. } => *consumable,
        }
    }

    /// Whether using the entry spends it.
    pub fn consumable(&self) -> (r: bool)
        ensures
            r == self.spec_consumable(),
    {
        match self {
            FieldUseDefinition::RestoreHp { consumable, .. } => *consumable,
            FieldUseDefinition::RestoreMp { consumable, .. } => *consumable,
            FieldUseDefinition::RestoreFull { consumable, .. } => *consumable,
            FieldUseDefinition::Cure { consumable, .. } => *consumable,
            FieldUseDefinition::Revive { consumable, .. } => *consumable,
        }
    }

    /// Who the entry may be used on.
    pub open spec fn spec_target(&self) -> FieldItemTarget {
        match self {
            FieldUseDefinition::RestoreHp { .. } | FieldUseDefinition::RestoreMp { .. }
            | FieldUseDefinition::Cure { .. } => FieldItemTarget::SingleAlive,
            FieldUseDefinition::RestoreFull { target, .. } => match target {
                FullRecoveryTarget::SingleAlive => FieldItemTarget::SingleAlive,
                FullRecoveryTarget::AllAlive => FieldItemTarget::AllAlive,
            },
            FieldUseDefinition::Revive { .. } => FieldItemTarget::SingleKo,
        }
    }

    /// Who the entry may be used on.
    pub fn target(&self) -> (r: FieldItemTarget)
        ensures
            r == self.spec_target(),
    {
        match self {
            FieldUseDefinition::RestoreHp { .. } | FieldUseDefinition::RestoreMp { .. }
            | FieldUseDefinition::Cure { .. } => FieldItemTarget::SingleAlive,
            FieldUseDefinition::RestoreFull { target, .. } => match target {
                FullRecoveryTarget::SingleAlive => FieldItemTarget::SingleAlive,
                FullRecoveryTarget::AllAlive => FieldItemTarget::AllAlive,
            },
            FieldUseDefinition::Revive { .. } => FieldItemTarget::SingleKo,
        }
    }
}

#[derive(Clone, Copy, Debug, PartialEq, Eq, Structural)]
pub enum FieldItemTarget {
    SingleAlive,
    SingleKo,
    AllAlive,
}

#[derive(Clone, Copy, Debug, PartialEq, Eq, Structural)]
pub enum SingleAliveTarget {
    SingleAlive,
}

#[derive(Clone, Copy, Debug, PartialEq, Eq, Structural)]
pub enum FullRecoveryTarget {
    SingleAlive,
    AllAlive,
}

#[derive(Clone, Copy, Debug, PartialEq, Eq, Structural)]
pub enum SingleKoTarget {
    SingleKo,
}

} // verus!
