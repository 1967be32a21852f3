//! Class and ability data as the battle rules read it.
//!
//! Fractional quantities are kept as exact integers in units of one ten-thousandth
//! ("per myriad"): `0.25` is `2_500`, a `1.5` multiplier is `15_000`. Every formula that the
//! rules apply to them is therefore exact integer arithmetic.

use vstd::prelude::*;

verus! {

/// One whole, in per-myriad units.
pub const MYRIAD: u32 = 10_000;

/// A fraction in the inclusive range `0..=1`, stored in per-myriad units.
#[derive(Clone, Copy, Debug, PartialEq, Eq, Structural)]
pub struct UnitInterval {
    per_myriad: u32,
}

impl UnitInterval {
    #[verifier::type_invariant]
    spec fn in_range(self) -> bool {
        self.per_myriad <= MYRIAD
    }

    /// The fraction in per-myriad units.
    pub closed spec fn value(self) -> nat {
        self.per_myriad as nat
    }

    /// Accepts a per-myriad value in `0..=10_000`.
    pub fn new(per_myriad: u32) -> (r: Option<Self>)
        ensures
            r.is_some() <==> per_myriad <= MYRIAD,
            r matches Some(u) ==> u.value() == per_myriad,
    {
        if per_myriad <= MYRIAD {
            Some(UnitInterval { per_myriad })
        } else {
            None
        }
    }

    /// The fraction in per-myriad units.
    pub fn get(self) -> (r: u32)
        ensures
            r == self.value(),
            r <= MYRIAD,
    {
        proof {
            use_type_invariant(&self);
        }
        self.per_myriad
    }
}

/// A strictly positive finite quantity (a coefficient or a multiplier), in per-myriad units.
#[derive(Clone, Copy, Debug, PartialEq, Eq, Structural)]
pub struct PositiveFinite {
    per_myriad: u64,
}

impl PositiveFinite {
    #[verifier::type_invariant]
    spec fn positive(self) -> bool {
        self.per_myriad > 0
    }

    /// The quantity in per-myriad units.
    pub closed spec fn value(self) -> nat {
        self.per_myriad as nat
    }

    /// Accepts any positive per-myriad value.
    pub fn new(per_myriad: u64) -> (r: Option<Self>)
        ensures
            r.is_some() <==> per_myriad > 0,
            r matches Some(p) ==> p.value() == per_myriad,
    {
        if per_myriad > 0 {
            Some(PositiveFinite { per_myriad })
        } else {
            None
        }
    }

    /// The quantity in per-myriad units.
    pub fn get(self) -> (r: u64)
        ensures
            r == self.value(),
            r > 0,
    {
        proof {
            use_type_invariant(&self);
        }
        self.per_myriad
    }
}

/// Who an ability may be aimed at.
#[derive(Clone, Copy, Debug, PartialEq, Eq, Structural)]
pub enum AbilityTarget {
    SingleEnemy,
    AllEnemies,
    GroupEnemies,
    SingleAlly,
    SelfTarget,
    AllAllies,
}

/// Who a buff or debuff effect lands on.
#[derive(Clone, Copy, Debug, PartialEq, Eq, Structural)]
pub enum EffectTarget {
    Party,
    AllEnemies,
    SingleEnemy,
    SelfTarget,
    SingleAlly,
}

/// The element of a spell.
#[derive(Clone, Copy, Debug, PartialEq, Eq, Structural)]
pub enum AbilityElement {
    Fire,
    Water,
    Wind,
    Earth,
    Holy,
}

/// Whether a physical ability strikes from the front row only.
#[derive(Clone, Copy, Debug, PartialEq, Eq, Structural)]
pub enum AttackRange {
    Melee,
    Ranged,
}

/// The stat a modifier scales.
#[derive(Clone, Copy, Debug, PartialEq, Eq, Structural)]
pub enum EffectStat {
    Attack,
    Defense,
    MagicResistance,
    HitChance,
}

/// A timed multiplier on one stat.
#[derive(Clone, Copy, Debug, PartialEq, Eq, Structural)]
pub struct StatModifierEffect {
    pub stat: EffectStat,
    /// The multiplier in per-myriad units.
    pub modifier: PositiveFinite,
    pub duration_turns: u32,
    pub target: EffectTarget,
}

/// A taunt that draws enemy attacks.
#[derive(Clone, Copy, Debug, PartialEq, Eq, Structural)]
pub struct AggroEffect {
    pub target: EffectTarget,
    pub duration_turns: u32,
}

/// Covers an ally, so physical blows aimed at them land on the caster.
#[derive(Clone, Copy, Debug, PartialEq, Eq, Structural)]
pub struct RedirectDamageEffect {
    pub target: EffectTarget,
    pub duration_turns: u32,
}

/// A defensive stance that reduces incoming damage (and costs the wearer its turns).
#[derive(Clone, Copy, Debug, PartialEq, Eq, Structural)]
pub struct DamageReductionEffect {
    pub target: EffectTarget,
    pub duration_turns: u32,
    pub damage_reduction: UnitInterval,
}

/// The four buff shapes.
#[derive(Clone, Copy, Debug, PartialEq, Eq, Structural)]
pub enum BuffEffect {
    StatModifier(StatModifierEffect),
    Aggro(AggroEffect),
    RedirectDamage(RedirectDamageEffect),
    DamageReduction(DamageReductionEffect),
}

/// A chance to kill outright.
#[derive(Clone, Copy, Debug, PartialEq, Eq, Structural)]
pub struct InstantKill {
    pub chance: UnitInterval,
}

/// A weapon technique.
#[derive(Clone, Copy, Debug, PartialEq, Eq, Structural)]
pub struct PhysicalAbility {
    pub target: AbilityTarget,
    /// Number of strikes; `None` strikes once.
    pub hits: Option<u32>,
    pub damage_coeff: PositiveFinite,
    pub attack_range: AttackRange,
    pub guaranteed_crit: Option<bool>,
    pub instant_kill: Option<InstantKill>,
    pub effect: Option<StatModifierEffect>,
}

/// A status a spell may leave behind.
#[derive(Clone, Copy, Debug, PartialEq, Eq, Structural)]
pub enum AbilitySideEffect {
    Burn { chance: UnitInterval, duration_turns: u32 },
    Freeze { chance: UnitInterval, duration_turns: u32 },
    Stun { chance: UnitInterval, duration_turns: u32 },
    Silence { chance: UnitInterval, duration_turns: u32 },
    Knockback { chance: UnitInterval, atk_modifier: PositiveFinite, duration_turns: u32 },
}

/// An offensive spell.
#[derive(Clone, Debug, PartialEq, Eq)]
pub struct SpellAbility {
    pub target: AbilityTarget,
    pub spell_coeff: PositiveFinite,
    pub element: AbilityElement,
    pub side_effects: Vec<AbilitySideEffect>,
}

/// How a healing ability restores health.
#[derive(Clone, Copy, Debug, PartialEq, Eq, Structural)]
pub enum HealingMethod {
    /// Restores `magic_resistance * coefficient`, or a share of the target's maximum health.
    Restore { coefficient: PositiveFinite, max_hp_percent: Option<UnitInterval> },
    /// Brings a knocked-out ally back with a share of its maximum health.
    Revive { hp_percent: UnitInterval },
}

/// A healing spell.
#[derive(Clone, Copy, Debug, PartialEq, Eq, Structural)]
pub struct HealAbility {
    pub target: AbilityTarget,
    pub healing: HealingMethod,
}

/// A supportive ability.
#[derive(Clone, Copy, Debug, PartialEq, Eq, Structural)]
pub struct BuffAbility {
    pub effect: BuffEffect,
}

/// A weakening ability.
#[derive(Clone, Copy, Debug, PartialEq, Eq, Structural)]
pub struct DebuffAbility {
    pub effect: StatModifierEffect,
}

/// Field and battle utilities.
#[derive(Clone, Copy, Debug, PartialEq, Eq, Structural)]
pub enum UtilityAbility {
    RemoveStatus { target: AbilityTarget },
    Steal { target: AbilityTarget },
    Warp { target: AbilityTarget },
}

/// The closed set of ability shapes.
#[derive(Clone, Debug, PartialEq, Eq)]
pub enum AbilityKind {
    Physical(PhysicalAbility),
    Spell(SpellAbility),
    Heal(HealAbility),
    Buff(BuffAbility),
    Debuff(DebuffAbility),
    Utility(UtilityAbility),
}

/// One learned ability.
#[derive(Clone, Debug, PartialEq, Eq)]
pub struct Ability {
    pub id: String,
    pub name: String,
    pub mp_cost: u32,
    pub kind: AbilityKind,
}

} // verus!
