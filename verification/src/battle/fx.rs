//! What each resolved battle event looks and sounds like: its floating label, its sound cues in
//! sounding order, and which attacker animates.

use vstd::prelude::*;

use crate::battle::action::BattleEvent;
use crate::battle::model::{BattleSide, CombatantKey};
use crate::battle::status::{StatusEffect, StatusPotency};
use crate::scenario_class::AbilityElement;
use crate::scenario_item::ItemElement;
use crate::text::{concat2, concat3, decimal, decimal_string};

verus! {

/// A battle sound cue.
#[derive(Clone, Copy, Debug, PartialEq, Eq, Hash, Structural)]
pub enum SfxCue {
    AtkImpact,
    PartyHit,
    AtkSlash,
    EnemyDeath,
    SpellFire,
    SpellWater,
    SpellWind,
    SpellEarth,
    UseItem,
    Defend,
    Heal,
    Revive,
    AtkBuff,
    DefBuff,
    Debuff,
}

/// Which sprite row an attacker plays while acting: a basic attack thrusts, anything else casts.
#[derive(Clone, Copy, Debug, PartialEq, Eq, Structural)]
pub enum AttackKind {
    Thrust,
    Spellcast,
}

/// The color family of a floating label.
#[derive(Clone, Copy, Debug, PartialEq, Eq, Structural)]
pub enum FxColor {
    Damage,
    Critical,
    Recovery,
    Mana,
    Status,
    Miss,
}

/// The floating label an event raises over its target.
#[derive(Clone, Debug, PartialEq, Eq)]
pub struct FxCue {
    pub target: CombatantKey,
    pub label: String,
    pub color: FxColor,
    /// Whether the target's frame flashes (and so shakes).
    pub flash: bool,
}

/// The cues a hit landing on `side` makes: the impact and the party's hurt cue when the party
/// is struck, the swing alone when the party connects.
pub open spec fn impact_cues(side: BattleSide) -> Seq<SfxCue> {
    match side {
        BattleSide::Party => seq![SfxCue::AtkImpact, SfxCue::PartyHit],
        BattleSide::Enemy => seq![SfxCue::AtkSlash],
    }
}

/// The cue of a spell's element; no holy cue is authored.
pub open spec fn ability_spell_cue(element: AbilityElement) -> Seq<SfxCue> {
    match element {
        AbilityElement::Fire => seq![SfxCue::SpellFire],
        AbilityElement::Water => seq![SfxCue::SpellWater],
        AbilityElement::Wind => seq![SfxCue::SpellWind],
        AbilityElement::Earth => seq![SfxCue::SpellEarth],
        AbilityElement::Holy => Seq::empty(),
    }
}

/// The cue of a thrown item's element; no holy cue is authored.
pub open spec fn item_spell_cue(element: ItemElement) -> Seq<SfxCue> {
    match element {
        ItemElement::Fire => seq![SfxCue::SpellFire],
        ItemElement::Water => seq![SfxCue::SpellWater],
        ItemElement::Wind => seq![SfxCue::SpellWind],
        ItemElement::Holy => Seq::empty(),
    }
}

/// Whether a status reads as a boon: a multiplier of at least one, or a damage reduction.
pub open spec fn boon(potency: StatusPotency) -> bool {
    match potency {
        StatusPotency::Multiplier(factor) => factor >= 10_000,
        StatusPotency::Reduction(_) => true,
        _ => false,
    }
}

/// The cue of an applied status: an affliction's, or the defensive or offensive boon's.
pub open spec fn status_cue_of(effect: StatusEffect, potency: StatusPotency) -> SfxCue {
    if !boon(potency) {
        SfxCue::Debuff
    } else {
        match effect {
            StatusEffect::DefenseModifier | StatusEffect::MagicResistanceModifier
            | StatusEffect::DamageReduction => SfxCue::DefBuff,
            _ => SfxCue::AtkBuff,
        }
    }
}

/// The death cue, when a killing blow felled an enemy.
pub open spec fn knockout_cue(knocked_out: bool, target: CombatantKey) -> Seq<SfxCue> {
    if knocked_out && target.side == BattleSide::Enemy {
        seq![SfxCue::EnemyDeath]
    } else {
        Seq::empty()
    }
}

/// The cues an event sounds, in order.
pub open spec fn event_cues(event: BattleEvent) -> Seq<SfxCue> {
    match event {
        BattleEvent::Miss { .. } => Seq::empty(),
        BattleEvent::Damage { action, knocked_out, .. } => impact_cues(action.spec_target().side)
            + knockout_cue(knocked_out, action.spec_target()),
        BattleEvent::MagicDamage { target, element, knocked_out, .. } => ability_spell_cue(element)
            + knockout_cue(knocked_out, target),
        BattleEvent::ItemDamage { target, element, knocked_out, .. } => seq![SfxCue::UseItem]
            + item_spell_cue(element) + knockout_cue(knocked_out, target),
        BattleEvent::EnemyAbilityDamage { target, knocked_out, .. } => impact_cues(target.side)
            + knockout_cue(knocked_out, target),
        BattleEvent::EnemyAbilityBlocked { .. } => seq![SfxCue::Defend],
        BattleEvent::Heal { revived, .. } => seq![
            if revived {
                SfxCue::Revive
            } else {
                SfxCue::Heal
            },
        ],
        BattleEvent::ManaRestored { .. } => seq![SfxCue::Heal],
        BattleEvent::StatusCured { .. } => seq![SfxCue::Heal],
        BattleEvent::StatusApplied { status, .. } => seq![status_cue_of(status.effect, status.potency)],
        BattleEvent::StatusDamage { target, knocked_out, .. } => impact_cues(target.side)
            + knockout_cue(knocked_out, target),
    }
}

/// The cue an applied status sounds.
pub fn status_cue(effect: StatusEffect, potency: StatusPotency) -> (r: SfxCue)
    ensures
        r == status_cue_of(effect, potency),
{
    let beneficial = match potency {
        StatusPotency::Multiplier(factor) => factor >= 10_000,
        StatusPotency::Reduction(_) => true,
        _ => false,
    };
    if !beneficial {
        return SfxCue::Debuff;
    }
    match effect {
        StatusEffect::DefenseModifier | StatusEffect::MagicResistanceModifier
        | StatusEffect::DamageReduction => SfxCue::DefBuff,
        _ => SfxCue::AtkBuff,
    }
}

fn push_impact(cues: &mut Vec<SfxCue>, side: BattleSide)
    ensures
        final(cues)@ == old(cues)@ + impact_cues(side),
{
    match side {
        BattleSide::Party => {
            cues.push(SfxCue::AtkImpact);
            cues.push(SfxCue::PartyHit);
        },
        BattleSide::Enemy => {
            cues.push(SfxCue::AtkSlash);
        },
    }
    assert(final(cues)@ =~= old(cues)@ + impact_cues(side));
}

fn push_knockout(cues: &mut Vec<SfxCue>, knocked_out: bool, target: CombatantKey)
    ensures
        final(cues)@ == old(cues)@ + knockout_cue(knocked_out, target),
{
    if knocked_out && target.side == BattleSide::Enemy {
        cues.push(SfxCue::EnemyDeath);
    }
    assert(final(cues)@ =~= old(cues)@ + knockout_cue(knocked_out, target));
}

/// The sound cues one resolved event fires, in sounding order.
pub fn sfx_cues_for_event(event: &BattleEvent) -> (r: Vec<SfxCue>)
    ensures
        r@ == event_cues(*event),
{
    let mut cues: Vec<SfxCue> = Vec::new();
    match *event {
        BattleEvent::Miss { .. } => {},
        BattleEvent::Damage { action, knocked_out, .. } => {
            let target = action.target();
            push_impact(&mut cues, target.side);
            push_knockout(&mut cues, knocked_out, target);
        },
        BattleEvent::MagicDamage { target, element, knocked_out, .. } => {
            match element {
                AbilityElement::Fire => cues.push(SfxCue::SpellFire),
                AbilityElement::Water => cues.push(SfxCue::SpellWater),
                AbilityElement::Wind => cues.push(SfxCue::SpellWind),
                AbilityElement::Earth => cues.push(SfxCue::SpellEarth),
                AbilityElement::Holy => {},
            }
            assert(cues@ =~= ability_spell_cue(element));
            push_knockout(&mut cues, knocked_out, target);
        },
        BattleEvent::ItemDamage { target, element, knocked_out, .. } => {
            cues.push(SfxCue::UseItem);
            match element {
                ItemElement::Fire => cues.push(SfxCue::SpellFire),
                ItemElement::Water => cues.push(SfxCue::SpellWater),
                ItemElement::Wind => cues.push(SfxCue::SpellWind),
                ItemElement::Holy => {},
            }
            assert(cues@ =~= seq![SfxCue::UseItem] + item_spell_cue(element));
            push_knockout(&mut cues, knocked_out, target);
        },
        BattleEvent::EnemyAbilityDamage { target, knocked_out, .. } => {
            push_impact(&mut cues, target.side);
            push_knockout(&mut cues, knocked_out, target);
        },
        BattleEvent::EnemyAbilityBlocked { .. } => cues.push(SfxCue::Defend),
        BattleEvent::Heal { revived, .. } => {
            cues.push(
                if revived {
                    SfxCue::Revive
                } else {
                    SfxCue::Heal
                },
            );
        },
        BattleEvent::ManaRestored { .. } => cues.push(SfxCue::Heal),
        BattleEvent::StatusCured { .. } => cues.push(SfxCue::Heal),
        BattleEvent::StatusApplied { status, .. } => {
            cues.push(status_cue(status.effect, status.potency));
        },
        BattleEvent::StatusDamage { target, knocked_out, .. } => {
            push_impact(&mut cues, target.side);
            push_knockout(&mut cues, knocked_out, target);
        },
    }
    assert(cues@ =~= event_cues(*event));
    cues
}

/// Which attacker animates on an event, and which row it plays: a whiff still swings, and an
/// event with no actor behind it (a status tick) animates nobody.
pub open spec fn attack_of(event: BattleEvent) -> Option<(CombatantKey, AttackKind)> {
    match event {
        BattleEvent::Miss { action } => Some((action.spec_attacker(), AttackKind::Thrust)),
        BattleEvent::Damage { action, .. } => Some((action.spec_attacker(), AttackKind::Thrust)),
        BattleEvent::EnemyAbilityDamage { source, .. } => Some((source, AttackKind::Spellcast)),
        BattleEvent::EnemyAbilityBlocked { source, .. } => Some((source, AttackKind::Spellcast)),
        BattleEvent::MagicDamage { source, .. } => Some((source, AttackKind::Spellcast)),
        BattleEvent::ItemDamage { source, .. } => Some((source, AttackKind::Spellcast)),
        BattleEvent::Heal { source, .. } => Some((source, AttackKind::Spellcast)),
        BattleEvent::ManaRestored { source, .. } => Some((source, AttackKind::Spellcast)),
        BattleEvent::StatusApplied { source, .. } => Some((source, AttackKind::Spellcast)),
        BattleEvent::StatusCured { source, .. } => Some((source, AttackKind::Spellcast)),
        BattleEvent::StatusDamage { .. } => None,
    }
}

/// Which attacker animates on an event, and which row it plays.
pub fn attack_for_event(event: &BattleEvent) -> (r: Option<(CombatantKey, AttackKind)>)
    ensures
        r == attack_of(*event),
{
    match *event {
        BattleEvent::Miss { action } => Some((action.attacker(), AttackKind::Thrust)),
        BattleEvent::Damage { action, .. } => Some((action.attacker(), AttackKind::Thrust)),
        BattleEvent::EnemyAbilityDamage { source, .. } => Some((source, AttackKind::Spellcast)),
        BattleEvent::EnemyAbilityBlocked { source, .. } => Some((source, AttackKind::Spellcast)),
        BattleEvent::MagicDamage { source, .. } => Some((source, AttackKind::Spellcast)),
        BattleEvent::ItemDamage { source, .. } => Some((source, AttackKind::Spellcast)),
        BattleEvent::Heal { source, .. } => Some((source, AttackKind::Spellcast)),
        BattleEvent::ManaRestored { source, .. } => Some((source, AttackKind::Spellcast)),
        BattleEvent::StatusApplied { source, .. } => Some((source, AttackKind::Spellcast)),
        BattleEvent::StatusCured { source, .. } => Some((source, AttackKind::Spellcast)),
        BattleEvent::StatusDamage { .. } => None,
    }
}

/// A status effect's name as its floating label spells it: the variant name in capitals.
pub open spec fn effect_caps(effect: StatusEffect) -> Seq<char> {
    match effect {
        StatusEffect::Poison => "POISON"@,
        StatusEffect::Sleep => "SLEEP"@,
        StatusEffect::Stun => "STUN"@,
        StatusEffect::Silence => "SILENCE"@,
        StatusEffect::Burn => "BURN"@,
        StatusEffect::Freeze => "FREEZE"@,
        StatusEffect::Knockback => "KNOCKBACK"@,
        StatusEffect::Taunt => "TAUNT"@,
        StatusEffect::AttackModifier => "ATTACKMODIFIER"@,
        StatusEffect::DefenseModifier => "DEFENSEMODIFIER"@,
        StatusEffect::MagicResistanceModifier => "MAGICRESISTANCEMODIFIER"@,
        StatusEffect::HitChanceModifier => "HITCHANCEMODIFIER"@,
        StatusEffect::DamageReduction => "DAMAGEREDUCTION"@,
        StatusEffect::RedirectDamage => "REDIRECTDAMAGE"@,
    }
}

fn effect_caps_text(effect: StatusEffect) -> (r: &'static str)
    ensures
        r@ == effect_caps(effect),
{
    match effect {
        StatusEffect::Poison => "POISON",
        StatusEffect::Sleep => "SLEEP",
        StatusEffect::Stun => "STUN",
        StatusEffect::Silence => "SILENCE",
        StatusEffect::Burn => "BURN",
        StatusEffect::Freeze => "FREEZE",
        StatusEffect::Knockback => "KNOCKBACK",
        StatusEffect::Taunt => "TAUNT",
        StatusEffect::AttackModifier => "ATTACKMODIFIER",
        StatusEffect::DefenseModifier => "DEFENSEMODIFIER",
        StatusEffect::MagicResistanceModifier => "MAGICRESISTANCEMODIFIER",
        StatusEffect::HitChanceModifier => "HITCHANCEMODIFIER",
        StatusEffect::DamageReduction => "DAMAGEREDUCTION",
        StatusEffect::RedirectDamage => "REDIRECTDAMAGE",
    }
}

/// The floating label of an event: its target, text, color, and whether the target flashes.
pub open spec fn cue_of(event: BattleEvent) -> (CombatantKey, Seq<char>, FxColor, bool) {
    match event {
        BattleEvent::Miss { action } => (action.spec_target(), "MISS"@, FxColor::Miss, false),
        BattleEvent::Damage { action, amount, critical, .. } => (
            action.spec_target(),
            if critical {
                "CRIT "@ + decimal(amount as nat)
            } else {
                decimal(amount as nat)
            },
            if critical {
                FxColor::Critical
            } else {
                FxColor::Damage
            },
            true,
        ),
        BattleEvent::MagicDamage { target, amount, .. } => (target, decimal(amount as nat), FxColor::Damage, true),
        BattleEvent::EnemyAbilityDamage { target, amount, .. } => (target, decimal(amount as nat), FxColor::Damage, true),
        BattleEvent::ItemDamage { target, amount, .. } => (target, decimal(amount as nat), FxColor::Damage, true),
        BattleEvent::StatusDamage { target, amount, .. } => (target, decimal(amount as nat), FxColor::Damage, true),
        BattleEvent::EnemyAbilityBlocked { target, .. } => (target, "BLOCKED"@, FxColor::Miss, false),
        BattleEvent::Heal { target, amount, revived, .. } => (
            target,
            if revived {
                "REVIVE"@
            } else {
                "+"@ + decimal(amount as nat)
            },
            FxColor::Recovery,
            false,
        ),
        BattleEvent::ManaRestored { target, amount, .. } => (target, "+"@ + decimal(amount as nat) + " MP"@, FxColor::Mana, false),
        BattleEvent::StatusApplied { target, status, .. } => (target, effect_caps(status.effect), FxColor::Status, false),
        BattleEvent::StatusCured { target, .. } => (target, "CURED"@, FxColor::Recovery, false),
    }
}

/// The floating label an event raises; every event raises one.
pub fn cue_for_event(event: &BattleEvent) -> (r: Option<FxCue>)
    ensures
        r matches Some(c) && (c.target, c.label@, c.color, c.flash) == cue_of(*event),
{
    let cue = match *event {
        BattleEvent::Miss { action } => FxCue {
            target: action.target(),
            label: "MISS".to_owned(),
            color: FxColor::Miss,
            flash: false,
        },
        BattleEvent::Damage { action, amount, critical, .. } => {
            let digits = decimal_string(amount as u64);
            FxCue {
                target: action.target(),
                label: if critical {
                    concat2("CRIT ", digits.as_str())
                } else {
                    digits
                },
                color: if critical {
                    FxColor::Critical
                } else {
                    FxColor::Damage
                },
                flash: true,
            }
        },
        BattleEvent::MagicDamage { target, amount, .. } => FxCue {
            target,
            label: decimal_string(amount as u64),
            color: FxColor::Damage,
            flash: true,
        },
        BattleEvent::EnemyAbilityDamage { target, amount, .. } => FxCue {
            target,
            label: decimal_string(amount as u64),
            color: FxColor::Damage,
            flash: true,
        },
        BattleEvent::ItemDamage { target, amount, .. } => FxCue {
            target,
            label: decimal_string(amount as u64),
            color: FxColor::Damage,
            flash: true,
        },
        BattleEvent::StatusDamage { target, amount, .. } => FxCue {
            target,
            label: decimal_string(amount as u64),
            color: FxColor::Damage,
            flash: true,
        },
        BattleEvent::EnemyAbilityBlocked { target, .. } => FxCue {
            target,
            label: "BLOCKED".to_owned(),
            color: FxColor::Miss,
            flash: false,
        },
        BattleEvent::Heal { target, amount, revived, .. } => FxCue {
            target,
            label: if revived {
                "REVIVE".to_owned()
            } else {
                let digits = decimal_string(amount as u64);
                concat2("+", digits.as_str())
            },
            color: FxColor::Recovery,
            flash: false,
        },
        BattleEvent::ManaRestored { target, amount, .. } => {
            let digits = decimal_string(amount as u64);
            FxCue {
                target,
                label: concat3("+", digits.as_str(), " MP"),
                color: FxColor::Mana,
                flash: false,
            }
        },
        BattleEvent::StatusApplied { target, status, .. } => FxCue {
            target,
            label: effect_caps_text(status.effect).to_owned(),
            color: FxColor::Status,
            flash: false,
        },
        BattleEvent::StatusCured { target, .. } => FxCue {
            target,
            label: "CURED".to_owned(),
            color: FxColor::Recovery,
            flash: false,
        },
    };
    Some(cue)
}

/// Whether a label shakes the whole canvas: only a flashing hit on the party does.
pub fn triggers_screen_flash(cue: &FxCue) -> (r: bool)
    ensures
        r == (cue.flash && cue.target.side == BattleSide::Party),
{
    cue.flash && cue.target.side == BattleSide::Party
}

} // verus!
