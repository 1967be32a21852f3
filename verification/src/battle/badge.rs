//! Persistent status-effect badges for the battle frames: the label and colors each active
//! status is drawn with.
//!
//! Every effect the model can carry gets a badge. A modifier effect covers both a rally and a
//! weakening, so its potency picks which way the badge reads.

use vstd::prelude::*;

use crate::battle::status::{ActiveStatus, StatusEffect, StatusPotency};

verus! {

/// Badges drawn per combatant before the rest are dropped.
pub const MAX_BADGES: usize = 3;

/// An sRGB color, one byte per channel.
pub type Rgb = (u8, u8, u8);

/// One rendered pill: what it says and the two colors it says it in.
#[derive(Clone, Copy, Debug, PartialEq, Eq)]
pub struct StatusBadge {
    pub label: &'static str,
    pub fill: Rgb,
    pub ink: Rgb,
}

/// Whether a modifier status helps the combatant wearing it: a multiplier of at least one raises
/// the stat, and a damage reduction always favours its wearer.
pub open spec fn beneficial(potency: StatusPotency) -> bool {
    match potency {
        StatusPotency::Multiplier(factor) => factor >= 10_000,
        StatusPotency::Reduction(_) => true,
        _ => false,
    }
}

/// The label and colors of the badge a status wears.
pub open spec fn badge_look(status: ActiveStatus) -> (Seq<char>, Rgb, Rgb) {
    let boon_fill: Rgb = (40, 110, 110);
    let boon_ink: Rgb = (170, 230, 230);
    let bane_fill: Rgb = (110, 46, 46);
    let bane_ink: Rgb = (240, 180, 180);
    let up = beneficial(status.potency);
    match status.effect {
        StatusEffect::Poison => ("PSN"@, (51, 102, 51), (170, 255, 170)),
        StatusEffect::Sleep => ("zzz"@, (68, 68, 170), (204, 204, 255)),
        StatusEffect::Stun => ("STN"@, (120, 90, 20), (255, 220, 100)),
        StatusEffect::Silence => ("SIL"@, (100, 60, 100), (220, 180, 220)),
        StatusEffect::Burn => ("BRN"@, (140, 40, 40), (255, 170, 120)),
        StatusEffect::Freeze => ("FRZ"@, (40, 80, 140), (180, 220, 255)),
        StatusEffect::Knockback => ("KBK"@, (90, 90, 120), (210, 210, 230)),
        StatusEffect::Taunt => ("TNT"@, (150, 60, 30), (255, 180, 100)),
        StatusEffect::AttackModifier => if up {
            ("ATK+"@, boon_fill, boon_ink)
        } else {
            ("ATK-"@, bane_fill, bane_ink)
        },
        StatusEffect::DefenseModifier => if up {
            ("DEF+"@, boon_fill, boon_ink)
        } else {
            ("DEF-"@, bane_fill, bane_ink)
        },
        StatusEffect::MagicResistanceModifier => if up {
            ("RES+"@, boon_fill, boon_ink)
        } else {
            ("RES-"@, bane_fill, bane_ink)
        },
        StatusEffect::HitChanceModifier => if up {
            ("HIT+"@, boon_fill, boon_ink)
        } else {
            ("HIT-"@, bane_fill, bane_ink)
        },
        StatusEffect::DamageReduction => ("GRD"@, boon_fill, boon_ink),
        StatusEffect::RedirectDamage => ("CVR"@, (90, 70, 130), (215, 195, 245)),
    }
}

/// The badge reads `look`.
pub open spec fn shows(b: StatusBadge, look: (Seq<char>, Rgb, Rgb)) -> bool {
    b.label@ == look.0 && b.fill == look.1 && b.ink == look.2
}

fn badge(label: &'static str, fill: Rgb, ink: Rgb) -> (r: StatusBadge)
    ensures
        r.label@ == label@,
        r.fill == fill,
        r.ink == ink,
{
    StatusBadge { label, fill, ink }
}

fn is_beneficial(potency: StatusPotency) -> (r: bool)
    ensures
        r == beneficial(potency),
{
    match potency {
        StatusPotency::Multiplier(factor) => factor >= 10_000,
        StatusPotency::Reduction(_) => true,
        _ => false,
    }
}

/// The badge one active status wears. Every status earns one.
pub fn badge_for(status: ActiveStatus) -> (r: Option<StatusBadge>)
    ensures
        r matches Some(b) && shows(b, badge_look(status)),
{
    let up = is_beneficial(status.potency);
    let boon_fill: Rgb = (40, 110, 110);
    let boon_ink: Rgb = (170, 230, 230);
    let bane_fill: Rgb = (110, 46, 46);
    let bane_ink: Rgb = (240, 180, 180);
    let b = match status.effect {
        StatusEffect::Poison => badge("PSN", (51, 102, 51), (170, 255, 170)),
        StatusEffect::Sleep => badge("zzz", (68, 68, 170), (204, 204, 255)),
        StatusEffect::Stun => badge("STN", (120, 90, 20), (255, 220, 100)),
        StatusEffect::Silence => badge("SIL", (100, 60, 100), (220, 180, 220)),
        StatusEffect::Burn => badge("BRN", (140, 40, 40), (255, 170, 120)),
        StatusEffect::Freeze => badge("FRZ", (40, 80, 140), (180, 220, 255)),
        StatusEffect::Knockback => badge("KBK", (90, 90, 120), (210, 210, 230)),
        StatusEffect::Taunt => badge("TNT", (150, 60, 30), (255, 180, 100)),
        StatusEffect::AttackModifier => if up {
            badge("ATK+", boon_fill, boon_ink)
        } else {
            badge("ATK-", bane_fill, bane_ink)
        },
        StatusEffect::DefenseModifier => if up {
            badge("DEF+", boon_fill, boon_ink)
        } else {
            badge("DEF-", bane_fill, bane_ink)
        },
        StatusEffect::MagicResistanceModifier => if up {
            badge("RES+", boon_fill, boon_ink)
        } else {
            badge("RES-", bane_fill, bane_ink)
        },
        StatusEffect::HitChanceModifier => if up {
            badge("HIT+", boon_fill, boon_ink)
        } else {
            badge("HIT-", bane_fill, bane_ink)
        },
        StatusEffect::DamageReduction => badge("GRD", boon_fill, boon_ink),
        StatusEffect::RedirectDamage => badge("CVR", (90, 70, 130), (215, 195, 245)),
    };
    Some(b)
}

/// Every badge a combatant wears: one per status in application order, so the oldest
/// affliction stays in place, and no more than `MAX_BADGES`.
pub fn badges(statuses: &[ActiveStatus]) -> (r: Vec<StatusBadge>)
    ensures
        r@.len() == if statuses@.len() < MAX_BADGES {
            statuses@.len()
        } else {
            MAX_BADGES as nat
        },
        forall|i: int| 0 <= i < r@.len() ==> shows(#[trigger] r@[i], badge_look(statuses@[i])),
{
    let mut out: Vec<StatusBadge> = Vec::new();
    let mut i: usize = 0;
    while i < statuses.len() && i < MAX_BADGES
        invariant
            i <= statuses@.len(),
            i <= MAX_BADGES,
            out@.len() == i,
            forall|k: int| 0 <= k < i ==> shows(#[trigger] out@[k], badge_look(statuses@[k])),
        decreases statuses@.len() - i,
    {
        match badge_for(statuses[i]) {
            Some(b) => out.push(b),
            None => {},
        }
        i = i + 1;
    }
    out
}

} // verus!
