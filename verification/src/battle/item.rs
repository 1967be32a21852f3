//! Using a consumable item in battle.

use vstd::prelude::*;

use crate::battle::ability::{only_combatants_changed, pools_ok, target_label, target_list_text};
use crate::battle::action::BattleEvent;
use crate::battle::model::{BattleCombatant, BattlePhase, BattleSide, BattleState, CombatantKey};
use crate::battle::resolver::{first_index_of, lemma_first_index_of_bounds};
use crate::battle::status::StatusEffect;
use crate::runtime_repository::RuntimeRepository;
use crate::scenario_item::{ConsumableEffect, ConsumableItem};
use crate::text::concat4;

verus! {

/// Why an item cannot be used.
#[derive(Clone, Copy, Debug, PartialEq, Eq, Structural)]
pub enum ItemUseError {
    /// The user is not a living party member.
    UnknownSource,
    /// The party carries none of the item.
    Unavailable,
    /// The target is not one the item may be used on.
    InvalidTarget,
    /// The item has no battle use.
    Unsupported,
}

/// Whether an item's effect is usable in battle on an ally.
pub open spec fn battle_usable(effect: ConsumableEffect) -> bool {
    effect is RestoreHp || effect is RestoreMp || effect is FullRecovery || effect is Revive
        || effect is Cure
}

/// Whether `c` is a target the effect accepts: a party member, knocked out for a revive and
/// alive otherwise.
pub open spec fn item_target_ok(effect: ConsumableEffect, c: BattleCombatant) -> bool {
    c.key.side == BattleSide::Party && (if effect is Revive {
        !c.alive()
    } else {
        c.alive()
    })
}

/// Why using `item` from `user` on `target` is refused, checked in order, if it is.
pub open spec fn item_refusal(
    cs: Seq<BattleCombatant>,
    user: CombatantKey,
    item: ConsumableItem,
    target: CombatantKey,
    carried: nat,
) -> Option<ItemUseError> {
    let ui = first_index_of(cs, user);
    let ti = first_index_of(cs, target);
    if ui < 0 || cs[ui].key.side != BattleSide::Party || !cs[ui].alive() {
        Some(ItemUseError::UnknownSource)
    } else if !battle_usable(item.effect) {
        Some(ItemUseError::Unsupported)
    } else if carried == 0 {
        Some(ItemUseError::Unavailable)
    } else if ti < 0 || !item_target_ok(item.effect, cs[ti]) {
        Some(ItemUseError::InvalidTarget)
    } else {
        None
    }
}

/// `statuses` after each status of `cures` is cured in order.
pub open spec fn cured_statuses(
    statuses: Seq<crate::battle::status::ActiveStatus>,
    cures: Seq<crate::scenario_item::ItemStatus>,
) -> Seq<crate::battle::status::ActiveStatus>
    decreases cures.len(),
{
    if cures.len() == 0 {
        statuses
    } else {
        crate::battle::model::without_effect(
            cured_statuses(statuses, cures.drop_last()),
            StatusEffect::spec_from_item(cures.last()),
        )
    }
}

/// The cures recorded as the statuses of `cures` are cured in order from `statuses`: one for
/// each that was still carried.
pub open spec fn cure_events(
    statuses: Seq<crate::battle::status::ActiveStatus>,
    cures: Seq<crate::scenario_item::ItemStatus>,
    user: CombatantKey,
    target: CombatantKey,
) -> Seq<BattleEvent>
    decreases cures.len(),
{
    if cures.len() == 0 {
        Seq::empty()
    } else {
        let prior = cure_events(statuses, cures.drop_last(), user, target);
        let effect = StatusEffect::spec_from_item(cures.last());
        if crate::battle::model::carries(cured_statuses(statuses, cures.drop_last()), effect) {
            prior.push(BattleEvent::StatusCured { source: user, target, effect: Some(effect) })
        } else {
            prior
        }
    }
}

/// Health after `amount` is restored to `t`, capped at the maximum.
pub open spec fn healed(t: BattleCombatant, amount: nat) -> nat {
    if t.health + amount >= t.max_health {
        t.max_health as nat
    } else {
        (t.health + amount) as nat
    }
}

/// Mana after `amount` is restored to `t`, capped at the maximum.
pub open spec fn replenished(t: BattleCombatant, amount: nat) -> nat {
    if t.mana + amount >= t.max_mana {
        t.max_mana as nat
    } else {
        (t.mana + amount) as nat
    }
}

/// Whether the item `effect` used by `user` turns the target `t` into `a`, raising `events`.
pub open spec fn item_effect_applied(
    t: BattleCombatant,
    a: BattleCombatant,
    effect: ConsumableEffect,
    user: CombatantKey,
    target: CombatantKey,
    events: Seq<BattleEvent>,
) -> bool {
    match effect {
        ConsumableEffect::RestoreHp(e) => {
            let h = healed(t, e.restore_hp.value());
            &&& a == (BattleCombatant { health: h as u32, ..t })
            &&& events == seq![
                BattleEvent::Heal { source: user, target, amount: (h - t.health) as u32, revived: false },
            ]
        },
        ConsumableEffect::RestoreMp(e) => {
            let m = replenished(t, e.restore_mp.value());
            &&& a == (BattleCombatant { mana: m as u32, ..t })
            &&& events == seq![BattleEvent::ManaRestored { source: user, target, amount: (m - t.mana) as u32 }]
        },
        ConsumableEffect::FullRecovery(_) => {
            &&& a == (BattleCombatant { health: t.max_health, mana: t.max_mana, ..t })
            &&& events == seq![
                BattleEvent::Heal {
                    source: user,
                    target,
                    amount: (t.max_health - t.health) as u32,
                    revived: false,
                },
                BattleEvent::ManaRestored { source: user, target, amount: (t.max_mana - t.mana) as u32 },
            ]
        },
        ConsumableEffect::Revive(e) => {
            let share = t.max_health as nat * e.revive_hp_pct.value() / crate::scenario_class::MYRIAD as nat;
            let restored: nat = if t.max_health == 0 {
                0
            } else if share == 0 {
                1
            } else if share > t.max_health {
                t.max_health as nat
            } else {
                share
            };
            &&& a == if restored == 0 {
                t
            } else {
                BattleCombatant { health: restored as u32, ..t }
            }
            &&& events == seq![
                BattleEvent::Heal { source: user, target, amount: restored as u32, revived: restored > 0 },
            ]
        },
        ConsumableEffect::Cure(e) => {
            &&& a.same_but_health_and_statuses(&t)
            &&& a.health == t.health
            &&& a.status_effects@ == cured_statuses(t.status_effects@, e.cure@)
            &&& events == cure_events(t.status_effects@, e.cure@, user, target)
        },
        _ => false,
    }
}

/// Uses one `item` from `user` on `target`. A refused use changes nothing. Otherwise one item
/// is used up, its effect lands (health or mana restored up to the maximum, a revival, or the
/// listed statuses cured), the events are queued, the use is narrated and recorded, and the
/// phase becomes `Resolve`.
pub fn resolve_item(
    state: &mut BattleState,
    user: CombatantKey,
    item: &ConsumableItem,
    target: CombatantKey,
    repository: &mut RuntimeRepository,
) -> (r: Result<Vec<BattleEvent>, ItemUseError>)
    requires
        pools_ok(old(state).combatants@),
    ensures
        pools_ok(final(state).combatants@),
        final(state).combatants@.len() == old(state).combatants@.len(),
        forall|j: int|
            0 <= j < final(state).combatants@.len() ==> (#[trigger] final(state).combatants@[j]).behavior
                == old(state).combatants@[j].behavior,
        match item_refusal(old(state).combatants@, user, *item, target, old(repository).count(item.id@)) {
            Some(e) => r == Err::<Vec<BattleEvent>, ItemUseError>(e) && *final(state) == *old(state)
                && *final(repository) == *old(repository),
            None => r is Ok,
        },
        r matches Ok(events) ==> {
            let cs = old(state).combatants@;
            let ti = first_index_of(cs, target);
            let ui = first_index_of(cs, user);
            &&& item_effect_applied(cs[ti], final(state).combatants@[ti], item.effect, user, target, events@)
            &&& final(state).feedback_events@ == old(state).feedback_events@ + events@
            &&& final(state).message@ == cs[ui].name@ + " uses "@ + item.name@ + "!"@
            &&& final(state).transcript@ == old(state).transcript@.push(final(state).transcript@.last())
            &&& final(state).transcript@.last()@ == "ITEM "@ + cs[ui].id@ + " "@ + item.id@ + " "@
                + crate::battle::ability::target_list(seq![target])
        },
        r is Ok ==> {
            let cs = old(state).combatants@;
            let ti = first_index_of(cs, target);
            let t = cs[ti];
            let after = final(state).combatants@[ti];
            &&& final(repository).count(item.id@) == old(repository).count(item.id@) - 1
            &&& forall|other: Seq<char>|
                other != item.id@ ==> final(repository).count(other) == old(repository).count(other)
            &&& final(state).phase == BattlePhase::Resolve
            &&& final(state).same_bookkeeping(old(state))
            &&& final(state).combatants@ == cs.update(ti, after)
            &&& after.key == t.key
            &&& match item.effect {
                ConsumableEffect::RestoreHp(e) => after.health == if t.health + e.restore_hp.value()
                    >= t.max_health {
                    t.max_health as int
                } else {
                    t.health + e.restore_hp.value()
                },
                ConsumableEffect::RestoreMp(e) => after.mana == if t.mana + e.restore_mp.value()
                    >= t.max_mana {
                    t.max_mana as int
                } else {
                    t.mana + e.restore_mp.value()
                },
                ConsumableEffect::FullRecovery(_) => after.health == t.max_health && after.mana
                    == t.max_mana,
                _ => true,
            }
        },
{
    let ghost cs = state.combatants@;
    proof {
        lemma_first_index_of_bounds(cs, user);
        lemma_first_index_of_bounds(cs, target);
    }
    let ui = match state.actor_index(user) {
        Some(ui) => ui,
        None => return Err(ItemUseError::UnknownSource),
    };
    if state.combatants[ui].key.side != BattleSide::Party || !state.combatants[ui].is_alive() {
        return Err(ItemUseError::UnknownSource);
    }
    let usable = match &item.effect {
        ConsumableEffect::RestoreHp(_) => true,
        ConsumableEffect::RestoreMp(_) => true,
        ConsumableEffect::FullRecovery(_) => true,
        ConsumableEffect::Revive(_) => true,
        ConsumableEffect::Cure(_) => true,
        _ => false,
    };
    if !usable {
        return Err(ItemUseError::Unsupported);
    }
    if repository.item_count(item.id.as_str()) == 0 {
        return Err(ItemUseError::Unavailable);
    }
    let ti = match state.actor_index(target) {
        Some(ti) => ti,
        None => return Err(ItemUseError::InvalidTarget),
    };
    let revive = match &item.effect {
        ConsumableEffect::Revive(_) => true,
        _ => false,
    };
    if state.combatants[ti].key.side != BattleSide::Party || state.combatants[ti].is_alive() == revive {
        return Err(ItemUseError::InvalidTarget);
    }
    let _ = repository.consume_one(item.id.as_str());
    let mut events: Vec<BattleEvent> = Vec::new();
    let ghost before = state.combatants@;
    match &item.effect {
        ConsumableEffect::RestoreHp(e) => {
            let amount = state.combatants[ti].apply_heal(e.restore_hp.get());
            events.push(BattleEvent::Heal { source: user, target, amount, revived: false });
            proof {
                assert(events@ =~= seq![BattleEvent::Heal { source: user, target, amount, revived: false }]);
                assert(state.combatants@[ti as int] =~= (BattleCombatant {
                    health: state.combatants@[ti as int].health,
                    ..before[ti as int]
                }));
            }
        },
        ConsumableEffect::RestoreMp(e) => {
            let amount = state.combatants[ti].restore_mana(e.restore_mp.get());
            events.push(BattleEvent::ManaRestored { source: user, target, amount });
            proof {
                assert(events@ =~= seq![BattleEvent::ManaRestored { source: user, target, amount }]);
            }
        },
        ConsumableEffect::FullRecovery(_) => {
            let max_health = state.combatants[ti].max_health;
            let max_mana = state.combatants[ti].max_mana;
            let healed = state.combatants[ti].apply_heal(max_health);
            let restored = state.combatants[ti].restore_mana(max_mana);
            events.push(BattleEvent::Heal { source: user, target, amount: healed, revived: false });
            events.push(BattleEvent::ManaRestored { source: user, target, amount: restored });
            proof {
                assert(events@ =~= seq![
                    BattleEvent::Heal { source: user, target, amount: healed, revived: false },
                    BattleEvent::ManaRestored { source: user, target, amount: restored },
                ]);
                assert(state.combatants@[ti as int] =~= (BattleCombatant {
                    health: before[ti as int].max_health,
                    mana: before[ti as int].max_mana,
                    ..before[ti as int]
                }));
            }
        },
        ConsumableEffect::Revive(e) => {
            let amount = state.combatants[ti].revive(e.revive_hp_pct.get());
            events.push(BattleEvent::Heal { source: user, target, amount, revived: amount > 0 });
            proof {
                assert(events@ =~= seq![BattleEvent::Heal { source: user, target, amount, revived: amount > 0 }]);
            }
        },
        ConsumableEffect::Cure(e) => {
            let mut k: usize = 0;
            while k < e.cure.len()
                invariant
                    ti < state.combatants@.len(),
                    before.len() == state.combatants@.len(),
                    state.same_bookkeeping(old(state)),
                    only_combatants_changed(state, old(state)),
                    pools_ok(state.combatants@),
                    state.combatants@ == before.update(ti as int, state.combatants@[ti as int]),
                    state.combatants@[ti as int].same_but_health_and_statuses(&before[ti as int]),
                    state.combatants@[ti as int].health == before[ti as int].health,
                    k <= e.cure@.len(),
                    state.combatants@[ti as int].status_effects@ == cured_statuses(
                        before[ti as int].status_effects@,
                        e.cure@.take(k as int),
                    ),
                    events@ == cure_events(before[ti as int].status_effects@, e.cure@.take(k as int), user, target),
                decreases e.cure.len() - k,
            {
                let effect = StatusEffect::from_item(e.cure[k]);
                let ghost inner = state.combatants@;
                proof {
                    assert(e.cure@.take(k + 1).drop_last() =~= e.cure@.take(k as int));
                    assert(e.cure@.take(k + 1).last() == e.cure@[k as int]);
                }
                if state.combatants[ti].remove_status(effect) {
                    events.push(BattleEvent::StatusCured { source: user, target, effect: Some(effect) });
                }
                proof {
                    assert(state.combatants@ =~= inner.update(ti as int, state.combatants@[ti as int]));
                    assert(state.combatants@ =~= before.update(ti as int, state.combatants@[ti as int]));
                    assert forall|j: int| #![auto] 0 <= j < state.combatants@.len() implies state.combatants@[j].pools_in_range() by {
                        if j != ti {
                            assert(state.combatants@[j] == inner[j]);
                        }
                    }
                }
                k = k + 1;
            }
            proof {
                assert(e.cure@.take(e.cure@.len() as int) =~= e.cure@);
            }
        },
        _ => {},
    }
    proof {
        assert(state.combatants@ =~= before.update(ti as int, state.combatants@[ti as int]));
        assert(state.combatants@[ti as int].key == before[ti as int].key);
        assert(pools_ok(state.combatants@)) by {
            assert forall|j: int| #![auto] 0 <= j < state.combatants@.len() implies state.combatants@[j].pools_in_range() by {
                if j != ti {
                    assert(state.combatants@[j] == before[j]);
                }
            }
        }
    }
    let ghost old_after = state.combatants@[ti as int];
    proof {
        assert(item_effect_applied(before[ti as int], old_after, item.effect, user, target, events@));
    }
    let ghost fb0 = state.feedback_events@;
    let mut k: usize = 0;
    while k < events.len()
        invariant
            state.feedback_events@ == fb0 + events@.take(k as int),
            fb0 == old(state).feedback_events@,
            state.message == old(state).message,
            state.transcript == old(state).transcript,
            k <= events@.len(),
            state.combatants@ == before.update(ti as int, state.combatants@[ti as int]),
            ti < state.combatants@.len(),
            before.len() == state.combatants@.len(),
            state.same_bookkeeping(old(state)),
            pools_ok(state.combatants@),
            state.combatants@[ti as int] == old_after,
        decreases events.len() - k,
    {
        state.feedback_events.push(events[k]);
        assert(events@.take(k + 1) =~= events@.take(k as int).push(events@[k as int]));
        k = k + 1;
    }
    assert(events@.take(events@.len() as int) =~= events@);
    state.message = concat4(state.combatants[ui].name.as_str(), " uses ", item.name.as_str(), "!");
    let mut line = concat4("ITEM ", state.combatants[ui].id.as_str(), " ", item.id.as_str());
    line.append(" ");
    let only = [target];
    assert(only@ =~= seq![target]);
    let label = target_list_text(&only);
    line.append(label.as_str());
    state.transcript.push(line);
    state.phase = BattlePhase::Resolve;
    Ok(events)
}

} // verus!
