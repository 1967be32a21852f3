//! Turn flow and physical-attack resolution.

use vstd::prelude::*;

use crate::battle::action::{BattleAction, BattleEvent};
use crate::battle::model::{
    carries, first_redirect, hit_effects, multiplier_product, tick_statuses_after, tick_taken,
    BattleCombatant, BattleCommand, BattlePhase, BattleSide, BattleState, CombatantKey,
};
use crate::battle::rules::{
    critical_damage, critical_hit_chance, physical_damage, physical_hit_chance, roll_hits,
    roll_succeeds, spec_critical_hit_chance, spec_physical_damage, spec_physical_hit_chance,
};
use crate::battle::status::StatusEffect;
use crate::encounter::{BattleEntry, BattleParticipant};
use crate::gameplay_rng::{next_state, output, GameplayRng};
use crate::scenario_item::ItemStatus;
use crate::battle::status::ActiveStatus;
use crate::scenario_class::MYRIAD;
use crate::text::{concat2, concat3, concat4, decimal, decimal_string};

verus! {

/// The positions of the abilities usable in battle, in order.
pub open spec fn castable_positions(abilities: Seq<crate::scenario_class::Ability>) -> Seq<usize>
    decreases abilities.len(),
{
    if abilities.len() == 0 {
        Seq::empty()
    } else {
        let rest = castable_positions(abilities.drop_last());
        if crate::battle::ability::spec_battle_ability(abilities.last()) {
            rest.push((abilities.len() - 1) as usize)
        } else {
            rest
        }
    }
}

/// The index of the first combatant with `key`, or `-1`.
pub open spec fn first_index_of(cs: Seq<BattleCombatant>, key: CombatantKey) -> int
    decreases cs.len(),
{
    if cs.len() == 0 {
        -1
    } else {
        let rest = first_index_of(cs.drop_last(), key);
        if rest >= 0 {
            rest
        } else if cs.last().key == key {
            cs.len() - 1
        } else {
            -1
        }
    }
}

pub proof fn lemma_first_index_of_bounds(cs: Seq<BattleCombatant>, key: CombatantKey)
    ensures
        -1 <= first_index_of(cs, key) < cs.len(),
        first_index_of(cs, key) >= 0 ==> cs[first_index_of(cs, key)].key == key,
        first_index_of(cs, key) == -1 ==> forall|i: int| 0 <= i < cs.len() ==> cs[i].key != key,
    decreases cs.len(),
{
    if cs.len() > 0 {
        lemma_first_index_of_bounds(cs.drop_last(), key);
        if first_index_of(cs.drop_last(), key) == -1 {
            assert forall|i: int| 0 <= i < cs.len() - 1 implies cs[i].key != key by {
                assert(cs.drop_last()[i] == cs[i]);
            }
        }
    }
}

pub proof fn lemma_first_index_of_extends(cs: Seq<BattleCombatant>, key: CombatantKey, i: int)
    requires
        0 <= i < cs.len(),
        first_index_of(cs.subrange(0, i), key) == -1,
        cs[i].key == key,
    ensures
        first_index_of(cs, key) == i,
    decreases cs.len(),
{
    if cs.len() == i + 1 {
        assert(cs.drop_last() == cs.subrange(0, i));
    } else {
        assert(cs.drop_last().subrange(0, i) == cs.subrange(0, i));
        lemma_first_index_of_extends(cs.drop_last(), key, i);
    }
}

pub proof fn lemma_first_index_of_update(cs: Seq<BattleCombatant>, key: CombatantKey, j: int, c: BattleCombatant)
    requires
        0 <= j < cs.len(),
        c.key == cs[j].key,
    ensures
        first_index_of(cs.update(j, c), key) == first_index_of(cs, key),
    decreases cs.len(),
{
    if j < cs.len() - 1 {
        assert(cs.update(j, c).drop_last() == cs.drop_last().update(j, c));
        lemma_first_index_of_update(cs.drop_last(), key, j, c);
    } else {
        assert(cs.update(j, c).drop_last() == cs.drop_last());
    }
}

/// Combatants with the same keys in the same places are found at the same place.
pub proof fn lemma_first_index_of_same_keys(a: Seq<BattleCombatant>, b: Seq<BattleCombatant>, key: CombatantKey)
    requires
        a.len() == b.len(),
        forall|j: int| 0 <= j < a.len() ==> #[trigger] a[j].key == b[j].key,
    ensures
        first_index_of(a, key) == first_index_of(b, key),
    decreases a.len(),
{
    if a.len() > 0 {
        assert forall|j: int| 0 <= j < a.len() - 1 implies #[trigger] a.drop_last()[j].key
            == b.drop_last()[j].key by {
            assert(a.drop_last()[j] == a[j] && b.drop_last()[j] == b[j]);
        }
        lemma_first_index_of_same_keys(a.drop_last(), b.drop_last(), key);
        assert(a.last().key == b.last().key);
    }
}

/// The combatant `key` names in `cs`: the first with that key.
pub open spec fn actor_in(cs: Seq<BattleCombatant>, key: CombatantKey) -> Option<BattleCombatant> {
    let i = first_index_of(cs, key);
    if i >= 0 {
        Some(cs[i])
    } else {
        None
    }
}

/// Where a physical blow aimed at `target` lands: on the ally covering it, if that ally is
/// alive, else on `target` itself.
pub open spec fn redirected(cs: Seq<BattleCombatant>, target: CombatantKey) -> CombatantKey {
    match actor_in(cs, target) {
        Some(t) => match first_redirect(t.status_effects@) {
            Some(cover) => match actor_in(cs, cover) {
                Some(c) => if c.alive() {
                    cover
                } else {
                    target
                },
                None => target,
            },
            None => target,
        },
        None => target,
    }
}

/// The combatant a resolved physical outcome names as struck, if it names one.
pub open spec fn struck_by(e: BattleEvent) -> Option<CombatantKey> {
    match e {
        BattleEvent::Miss { action } => Some(action.spec_target()),
        BattleEvent::Damage { action, .. } => Some(action.spec_target()),
        _ => None,
    }
}

/// Cover works: a physical attack (or a technique) aimed at a combatant whose first cover
/// status names an ally that is present and alive is resolved against that ally, by the
/// attacker; without such cover it is resolved against the target itself.
pub proof fn lemma_cover_takes_the_blow(
    cs: Seq<BattleCombatant>,
    attacker: CombatantKey,
    target: CombatantKey,
    s: u64,
)
    requires
        actor_in(cs, attacker) is Some,
        actor_in(cs, target) is Some,
    ensures
        ({
            let t = actor_in(cs, target)->0;
            let covered = first_redirect(t.status_effects@) matches Some(cover) && actor_in(cs, cover) matches Some(c)
                && c.alive();
            let struck = if covered {
                first_redirect(t.status_effects@)->0
            } else {
                target
            };
            &&& physical_outcome(cs, attacker, target, s) matches Some(e) && struck_by(e) == Some(struck)
            &&& crate::battle::ability::technique_landing(cs, target) == struck
        }),
{
    lemma_first_index_of_bounds(cs, target);
}

/// Whether every combatant on `side` is knocked out.
pub open spec fn side_defeated(cs: Seq<BattleCombatant>, side: BattleSide) -> bool {
    forall|i: int| 0 <= i < cs.len() && #[trigger] cs[i].key.side == side ==> !cs[i].alive()
}

/// The chance (per-myriad) a blow lands after the attacker's hit-chance modifiers, kept within
/// 5%..=95%.
pub open spec fn adjusted_hit_chance(attacker: BattleCombatant, defender: BattleCombatant) -> int {
    let raw = spec_physical_hit_chance(attacker.dexterity as int, defender.dexterity as int)
        * multiplier_product(attacker.status_effects@, hit_effects()) / MYRIAD as int;
    if raw < 500 {
        500
    } else if raw > 9_500 {
        9_500
    } else {
        raw
    }
}

/// What a physical attack resolves to from a generator at state `s`: a miss when the first roll
/// fails; otherwise damage, doubled by half on a critical second roll, capped at the defender's
/// health. `None` when either combatant is missing.
pub open spec fn physical_outcome(
    cs: Seq<BattleCombatant>,
    attacker: CombatantKey,
    target: CombatantKey,
    s: u64,
) -> Option<BattleEvent> {
    let landed_on = redirected(cs, target);
    let action = BattleAction::Physical { attacker, target: landed_on };
    match (actor_in(cs, attacker), actor_in(cs, landed_on)) {
        (Some(a), Some(d)) => if !roll_hits(output(s), adjusted_hit_chance(a, d) as nat) {
            Some(BattleEvent::Miss { action })
        } else {
            let critical = roll_hits(
                output(next_state(s)),
                spec_critical_hit_chance(a.dexterity as int) as nat,
            );
            let base = spec_physical_damage(a, d);
            let raw = if critical {
                (if base * 3 > u32::MAX {
                    u32::MAX as nat
                } else {
                    base * 3
                }) / 2
            } else {
                base
            };
            let amount = if raw <= d.health {
                raw
            } else {
                d.health as nat
            };
            Some(
                BattleEvent::Damage {
                    action,
                    amount: amount as u32,
                    critical,
                    knocked_out: amount >= d.health,
                },
            )
        },
        _ => None,
    }
}

/// The combatants `after` a physical attack whose outcome is `event`, from `before`: a blow
/// lowers its target's health by the amount (never below zero) and wakes it when it lands;
/// a miss, or no outcome, changes no combatant.
pub open spec fn blow_applied(
    before: Seq<BattleCombatant>,
    after: Seq<BattleCombatant>,
    event: Option<BattleEvent>,
) -> bool {
    match event {
        Some(BattleEvent::Damage { action, amount, .. }) => {
            let i = first_index_of(before, action.spec_target());
            let t = before[i];
            let actual = if amount <= t.health {
                amount
            } else {
                t.health
            };
            &&& 0 <= i < before.len()
            &&& after.len() == before.len()
            &&& forall|j: int| 0 <= j < before.len() && j != i ==> #[trigger] after[j] == before[j]
            &&& after[i].health == t.health - actual
            &&& after[i].same_but_health_and_statuses(&t)
            &&& after[i].status_effects@ == if actual > 0 {
                crate::battle::model::without_effect(t.status_effects@, StatusEffect::Sleep)
            } else {
                t.status_effects@
            }
        },
        _ => after == before,
    }
}

/// What resolving a physical attack of `attacker` on `target` does, from `before` to `after`,
/// the generator from state `s0` to `s1`: the outcome is drawn, the blow (if any) is taken,
/// and a resolved outcome is queued for feedback and moves the battle to `Resolve`; with a
/// combatant missing nothing happens.
#[verifier::opaque]
pub open spec fn physical_resolved(
    before: BattleState,
    after: BattleState,
    attacker: CombatantKey,
    target: CombatantKey,
    s0: u64,
    s1: u64,
) -> bool {
    let e = physical_outcome(before.combatants@, attacker, target, s0);
    &&& s1 == advanced(s0, physical_draws(before.combatants@, attacker, target, s0))
    &&& blow_applied(before.combatants@, after.combatants@, e)
    &&& e is None ==> after == before
    &&& e matches Some(ev) ==> {
        &&& after.phase == BattlePhase::Resolve
        &&& after.feedback_events@ == before.feedback_events@.push(ev)
        &&& after.same_bookkeeping(&before)
    }
}

/// How many draws a physical attack takes from the generator.
pub open spec fn physical_draws(cs: Seq<BattleCombatant>, attacker: CombatantKey, target: CombatantKey, s: u64) -> nat {
    match physical_outcome(cs, attacker, target, s) {
        None => 0,
        Some(BattleEvent::Miss { .. }) => 1,
        _ => 2,
    }
}

/// The generator state after `n` draws from state `s`.
pub open spec fn advanced(s: u64, n: nat) -> u64
    decreases n,
{
    if n == 0 {
        s
    } else {
        advanced(next_state(s), (n - 1) as nat)
    }
}

/// The message shown for a missed blow.
pub open spec fn miss_message(attacker: Seq<char>, target: Seq<char>) -> Seq<char> {
    attacker + " attacks "@ + target + ", but misses."@
}

/// The transcript line recorded for a missed blow.
pub open spec fn miss_line(attacker_id: Seq<char>, target_id: Seq<char>) -> Seq<char> {
    "MISS "@ + attacker_id + " -> "@ + target_id
}

/// The message shown for a landed blow.
pub open spec fn hit_message(
    attacker: Seq<char>,
    target: Seq<char>,
    amount: nat,
    critical: bool,
    knocked_out: bool,
) -> Seq<char> {
    (if critical {
        "Critical hit! "@
    } else {
        ""@
    }) + attacker + " attacks "@ + target + " for "@ + decimal(amount) + " damage."@ + (
    if knocked_out {
        " KO!"@
    } else {
        ""@
    })
}

/// The transcript line recorded for a landed blow.
pub open spec fn hit_line(
    attacker_id: Seq<char>,
    target_id: Seq<char>,
    amount: nat,
    critical: bool,
    knocked_out: bool,
) -> Seq<char> {
    (if critical {
        "CRITICAL"@
    } else {
        "HIT"@
    }) + " "@ + attacker_id + " -> "@ + target_id + " "@ + decimal(amount) + (if knocked_out {
        " KO"@
    } else {
        ""@
    })
}

impl BattleState {
    /// The combatant `key` names.
    pub open spec fn spec_actor(&self, key: CombatantKey) -> Option<BattleCombatant> {
        actor_in(self.combatants@, key)
    }

    /// The key whose turn it is.
    pub open spec fn spec_active_key(&self) -> Option<CombatantKey> {
        if self.active_turn < self.turn_order@.len() {
            Some(self.turn_order@[self.active_turn as int])
        } else {
            None
        }
    }

    /// Every field but the combatants, message, transcript, feedback, and phase is unchanged.
    pub open spec fn same_bookkeeping(&self, other: &Self) -> bool {
        &&& self.turn_order == other.turn_order
        &&& self.active_turn == other.active_turn
        &&& self.turn_count == other.turn_count
        &&& self.command_index == other.command_index
        &&& self.ability_index == other.ability_index
        &&& self.pending_ability == other.pending_ability
        &&& self.item_index == other.item_index
        &&& self.item_choices == other.item_choices
        &&& self.pending_item == other.pending_item
        &&& self.target == other.target
        &&& self.used_enemy_moves == other.used_enemy_moves
        &&& self.rewards == other.rewards
        &&& self.flee_outcome == other.flee_outcome
    }

    /// The position of the combatant `key` names.
    pub fn actor_index(&self, key: CombatantKey) -> (r: Option<usize>)
        ensures
            r.is_some() == (first_index_of(self.combatants@, key) >= 0),
            r matches Some(i) ==> i == first_index_of(self.combatants@, key) && i
                < self.combatants@.len(),
    {
        let n = self.combatants.len();
        let mut i: usize = 0;
        while i < n
            invariant
                n == self.combatants@.len(),
                0 <= i <= n,
                first_index_of(self.combatants@.subrange(0, i as int), key) == -1,
            decreases n - i,
        {
            let ghost prefix = self.combatants@.subrange(0, i + 1);
            assert(prefix.drop_last() == self.combatants@.subrange(0, i as int));
            if self.combatants[i].key == key {
                proof {
                    lemma_first_index_of_extends(self.combatants@, key, i as int);
                }
                return Some(i);
            }
            i = i + 1;
        }
        assert(self.combatants@.subrange(0, n as int) == self.combatants@);
        None
    }

    /// The combatant `key` names.
    pub fn actor(&self, key: CombatantKey) -> (r: Option<&BattleCombatant>)
        ensures
            r.is_some() == self.spec_actor(key).is_some(),
            r matches Some(a) ==> self.spec_actor(key) == Some(*a),
    {
        match self.actor_index(key) {
            Some(i) => Some(&self.combatants[i]),
            None => None,
        }
    }

    /// The key whose turn it is.
    pub fn active_key(&self) -> (r: Option<CombatantKey>)
        ensures
            r == self.spec_active_key(),
    {
        if self.active_turn < self.turn_order.len() {
            Some(self.turn_order[self.active_turn])
        } else {
            None
        }
    }

    /// The combatant whose turn it is.
    pub fn active(&self) -> (r: Option<&BattleCombatant>)
        ensures
            match self.spec_active_key() {
                Some(k) => r.is_some() == self.spec_actor(k).is_some() && (r matches Some(a)
                    ==> self.spec_actor(k) == Some(*a)),
                None => r is None,
            },
    {
        match self.active_key() {
            Some(k) => self.actor(k),
            None => None,
        }
    }

    /// The positions, among the active combatant's abilities, of those it can use in battle, in
    /// order; none without an active combatant.
    pub fn battle_ability_indices(&self) -> (r: Vec<usize>)
        ensures
            forall|i: int, j: int| 0 <= i < j < r@.len() ==> #[trigger] r@[i] < #[trigger] r@[j],
            match self.spec_active_key() {
                Some(k) => match self.spec_actor(k) {
                    Some(a) => r@ == castable_positions(a.abilities@) && (forall|x: usize| #[trigger] r@.contains(x) == (x < a.abilities@.len()
                        && crate::battle::ability::spec_battle_ability(a.abilities@[x as int])))
                        && (r@.len() > 0 <==> exists|i: int| 0 <= i < a.abilities@.len()
                        && crate::battle::ability::spec_battle_ability(#[trigger] a.abilities@[i])),
                    None => r@.len() == 0,
                },
                None => r@.len() == 0,
            },
    {
        let mut out: Vec<usize> = Vec::new();
        let actor = match self.active() {
            Some(a) => a,
            None => return out,
        };
        let n = actor.abilities.len();
        let mut i: usize = 0;
        while i < n
            invariant
                n == actor.abilities@.len(),
                i <= n,
                forall|p: int, q: int| 0 <= p < q < out@.len() ==> #[trigger] out@[p] < #[trigger] out@[q],
                forall|p: int| 0 <= p < out@.len() ==> #[trigger] out@[p] < i,
                forall|x: usize| #[trigger] out@.contains(x) == (x < i
                    && crate::battle::ability::spec_battle_ability(actor.abilities@[x as int])),
                out@.len() > 0 <==> exists|k: int| 0 <= k < i
                    && crate::battle::ability::spec_battle_ability(#[trigger] actor.abilities@[k]),
                out@ == castable_positions(actor.abilities@.take(i as int)),
            decreases n - i,
        {
            let ghost before = out@;
            assert(actor.abilities@.take(i + 1).drop_last() =~= actor.abilities@.take(i as int));
            if crate::battle::ability::battle_ability(&actor.abilities[i]) {
                out.push(i);
                assert forall|x: usize| #[trigger] out@.contains(x) == (before.contains(x) || x == i) by {
                    if before.contains(x) {
                        let k = choose|k: int| 0 <= k < before.len() && before[k] == x;
                        assert(out@[k] == x);
                    }
                    if x == i {
                        assert(out@[before.len() as int] == x);
                    }
                    if out@.contains(x) && x != i {
                        let k = choose|k: int| 0 <= k < out@.len() && out@[k] == x;
                        assert(k < before.len());
                    }
                }
            }
            assert forall|x: usize| #[trigger] out@.contains(x) == (x < i + 1
                && crate::battle::ability::spec_battle_ability(actor.abilities@[x as int])) by {
                if before.contains(x) {
                    let k = choose|k: int| 0 <= k < before.len() && before[k] == x;
                }
            }
            assert(out@.len() > 0 <==> exists|k: int| 0 <= k < i + 1
                && crate::battle::ability::spec_battle_ability(#[trigger] actor.abilities@[k])) by {
                if exists|k: int| 0 <= k < i + 1
                    && crate::battle::ability::spec_battle_ability(#[trigger] actor.abilities@[k]) {
                    let k = choose|k: int| 0 <= k < i + 1
                        && crate::battle::ability::spec_battle_ability(#[trigger] actor.abilities@[k]);
                    assert(out@.contains(k as usize));
                }
                if out@.len() > 0 {
                    let x = out@[0];
                    assert(out@.contains(x));
                    assert(crate::battle::ability::spec_battle_ability(actor.abilities@[x as int]));
                }
            }
            i = i + 1;
        }
        assert(actor.abilities@.take(n as int) =~= actor.abilities@);
        out
    }

    /// Whether every combatant on `side` is knocked out (vacuously so for an empty side).
    pub fn all_defeated(&self, side: BattleSide) -> (r: bool)
        ensures
            r == side_defeated(self.combatants@, side),
    {
        let n = self.combatants.len();
        let mut i: usize = 0;
        while i < n
            invariant
                n == self.combatants@.len(),
                0 <= i <= n,
                forall|k: int|
                    0 <= k < i && #[trigger] self.combatants@[k].key.side == side
                        ==> !self.combatants@[k].alive(),
            decreases n - i,
        {
            if self.combatants[i].key.side == side && self.combatants[i].is_alive() {
                return false;
            }
            i = i + 1;
        }
        true
    }

    /// Moves to the next turn, wrapping at the end of the order; a wrap starts a new round.
    pub fn step_turn(&mut self)
        requires
            old(self).turn_order@.len() > 0,
        ensures
            final(self).active_turn == (old(self).active_turn + 1) % (old(
                self,
            ).turn_order@.len() as int),
            final(self).turn_count == if final(self).active_turn <= old(self).active_turn {
                if old(self).turn_count == u32::MAX {
                    u32::MAX
                } else {
                    (old(self).turn_count + 1) as u32
                }
            } else {
                old(self).turn_count
            },
            final(self).combatants == old(self).combatants,
            final(self).turn_order == old(self).turn_order,
            final(self).phase == old(self).phase,
            final(self).message == old(self).message,
            final(self).transcript == old(self).transcript,
            final(self).feedback_events == old(self).feedback_events,
            final(self).used_enemy_moves == old(self).used_enemy_moves,
            *final(self) == (BattleState {
                active_turn: final(self).active_turn,
                turn_count: final(self).turn_count,
                ..*old(self)
            }),
    {
        let previous = self.active_turn;
        let len = self.turn_order.len();
        self.active_turn = ((self.active_turn as u128 + 1) % (len as u128)) as usize;
        if self.active_turn <= previous {
            self.turn_count = if self.turn_count == u32::MAX {
                u32::MAX
            } else {
                self.turn_count + 1
            };
        }
    }

    /// Steps past knocked-out combatants, at most once around the order. Starting from a turn
    /// inside the order, it takes the fewest steps `k` that reach a living combatant's turn (or
    /// `k` equal to the order's length when nobody in it is alive); every step that wraps the
    /// order starts a new round.
    pub fn skip_knocked_out(&mut self)
        ensures
            final(self).combatants == old(self).combatants,
            final(self).turn_order == old(self).turn_order,
            final(self).phase == old(self).phase,
            final(self).message == old(self).message,
            final(self).transcript == old(self).transcript,
            final(self).feedback_events == old(self).feedback_events,
            final(self).used_enemy_moves == old(self).used_enemy_moves,
            old(self).turn_order@.len() > 0 ==> final(self).active_turn
                < old(self).turn_order@.len(),
            old(self).active_turn < old(self).turn_order@.len() ==> exists|k: int|
                #![trigger turn_position(old(self).active_turn as int, k, old(self).turn_order@.len() as int)]
                0 <= k <= old(self).turn_order@.len() && final(self).active_turn == turn_position(
                    old(self).active_turn as int,
                    k,
                    old(self).turn_order@.len() as int,
                ) && final(self).turn_count == saturating_rounds(
                    old(self).turn_count as int,
                    (old(self).active_turn as int + k) / (old(self).turn_order@.len() as int),
                ) && (forall|j: int|
                    0 <= j < k ==> !turn_alive(
                        old(self).combatants@,
                        old(self).turn_order@,
                        #[trigger] turn_position(
                            old(self).active_turn as int,
                            j,
                            old(self).turn_order@.len() as int,
                        ),
                    )) && (k < old(self).turn_order@.len() ==> turn_alive(
                    old(self).combatants@,
                    old(self).turn_order@,
                    final(self).active_turn as int,
                )),
    {
        let len = self.turn_order.len();
        let ghost p = self.active_turn as int;
        let ghost count0 = self.turn_count as int;
        let mut step: usize = 0;
        let mut done = false;
        proof {
            if p < len {
                vstd::arithmetic::div_mod::lemma_small_mod(p as nat, len as nat);
                vstd::arithmetic::div_mod::lemma_fundamental_div_mod_converse(p, len as int, 0, p);
            }
        }
        while step < len && !done
            invariant
                len == self.turn_order@.len(),
                0 <= step <= len,
                self.combatants == old(self).combatants,
                self.turn_order == old(self).turn_order,
                self.phase == old(self).phase,
                self.message == old(self).message,
                self.transcript == old(self).transcript,
                self.feedback_events == old(self).feedback_events,
                self.used_enemy_moves == old(self).used_enemy_moves,
                p == old(self).active_turn,
                count0 == old(self).turn_count,
                step > 0 ==> self.active_turn < len,
                step == 0 ==> self.active_turn == p,
                p < len ==> self.active_turn == turn_position(p, step as int, len as int),
                p < len ==> self.turn_count == saturating_rounds(count0, (p + step) / (len as int)),
                p < len ==> forall|j: int|
                    0 <= j < step ==> !turn_alive(
                        self.combatants@,
                        self.turn_order@,
                        #[trigger] turn_position(p, j, len as int),
                    ),
                done ==> turn_alive(self.combatants@, self.turn_order@, self.active_turn as int),
            decreases len - step + (if done {
                0int
            } else {
                1int
            }),
        {
            let alive = match self.active_key() {
                Some(key) => match self.actor(key) {
                    Some(actor) => actor.is_alive(),
                    None => false,
                },
                None => false,
            };
            if alive {
                done = true;
            } else {
                let ghost before = self.active_turn as int;
                let ghost rounds = self.turn_count;
                proof {
                    if p < len {
                        lemma_step_position(p, step as int, len as int);
                    }
                }
                self.step_turn();
                proof {
                    if p < len {
                        assert(self.turn_count == saturating_rounds(
                            count0,
                            (p + step + 1) / (len as int),
                        ));
                    }
                }
                step = step + 1;
            }
        }
        proof {
            if len > 0 && step == 0 && p >= len {
                assert(done);
            }
        }
    }
}

/// The debug name of a side, as transcripts spell it.
pub open spec fn side_name(side: BattleSide) -> Seq<char> {
    match side {
        BattleSide::Party => "Party"@,
        BattleSide::Enemy => "Enemy"@,
    }
}

/// The debug name of a side, as transcripts spell it.
pub fn side_label(side: BattleSide) -> (r: &'static str)
    ensures
        r@ == side_name(side),
{
    match side {
        BattleSide::Party => "Party",
        BattleSide::Enemy => "Enemy",
    }
}

/// The transcript line for an end-of-turn status tick.
pub open spec fn status_line(key: CombatantKey, damage: nat, knocked_out: bool) -> Seq<char> {
    "STATUS "@ + side_name(key.side) + ":"@ + decimal(key.index as nat) + " "@ + decimal(damage)
        + (if knocked_out {
        " KO"@
    } else {
        ""@
    })
}

/// The status a damage-over-time tick is reported under: poison, else burn, else poison.
pub open spec fn tick_effect(statuses: Seq<crate::battle::status::ActiveStatus>) -> StatusEffect {
    if carries(statuses, StatusEffect::Poison) {
        StatusEffect::Poison
    } else if carries(statuses, StatusEffect::Burn) {
        StatusEffect::Burn
    } else {
        StatusEffect::Poison
    }
}

/// What a physical attack from `attacker` at `target` resolves to, drawing from `rng`. Pure:
/// the battle itself is untouched until the event is applied.
pub fn resolve_action(state: &BattleState, action: BattleAction, rng: &mut GameplayRng) -> (r: Option<BattleEvent>)
    ensures
        r == physical_outcome(
            state.combatants@,
            action.spec_attacker(),
            action.spec_target(),
            old(rng).spec_state(),
        ),
        final(rng).spec_state() == advanced(
            old(rng).spec_state(),
            physical_draws(
                state.combatants@,
                action.spec_attacker(),
                action.spec_target(),
                old(rng).spec_state(),
            ),
        ),
{
    let attacker = action.attacker();
    let target = action.target();
    let ghost s0 = rng.spec_state();
    let landed = match state.actor(target) {
        Some(t) => match t.redirected_target() {
            Some(cover) => match state.actor(cover) {
                Some(c) => if c.is_alive() {
                    cover
                } else {
                    target
                },
                None => target,
            },
            None => target,
        },
        None => target,
    };
    let resolved = BattleAction::Physical { attacker, target: landed };
    let a = match state.actor(attacker) {
        Some(a) => a,
        None => return None,
    };
    let d = match state.actor(landed) {
        Some(d) => d,
        None => return None,
    };
    let base_chance = physical_hit_chance(a.dexterity, d.dexterity);
    let multiplier = a.hit_chance_multiplier();
    proof {
        assert((base_chance as nat) * (multiplier as nat) <= 9_500 * 0xffff_ffff_ffff_ffff)
            by (nonlinear_arith)
            requires
                base_chance <= 9_500,
                multiplier <= 0xffff_ffff_ffff_ffff,
        ;
    }
    let raw = (base_chance as u128 * multiplier as u128) / MYRIAD as u128;
    let chance: u32 = if raw < 500 {
        500
    } else if raw > 9_500 {
        9_500
    } else {
        raw as u32
    };
    if !roll_succeeds(rng, chance) {
        proof {
            assert(advanced(next_state(s0), 0) == next_state(s0));
        }
        return Some(BattleEvent::Miss { action: resolved });
    }
    let critical = roll_succeeds(rng, critical_hit_chance(a.dexterity));
    let base = physical_damage(a, d);
    let dealt = if critical {
        critical_damage(base)
    } else {
        base
    };
    let amount = if dealt <= d.health {
        dealt
    } else {
        d.health
    };
    proof {
        assert(advanced(next_state(next_state(s0)), 0) == next_state(next_state(s0)));
        assert(advanced(next_state(s0), 1) == next_state(next_state(s0)));
    }
    Some(BattleEvent::Damage { action: resolved, amount, critical, knocked_out: amount >= d.health })
}

impl BattleState {
    /// Records one event. A miss or a blow between two present combatants is narrated, a blow
    /// lowers the target's health, and the phase becomes `Resolve`; any other event is only
    /// added to the feedback queue. A miss or blow naming a missing combatant changes nothing.
    pub fn apply_event(&mut self, event: BattleEvent)
        ensures
            match event {
                BattleEvent::Miss { action } => match (
                    old(self).spec_actor(action.spec_attacker()),
                    old(self).spec_actor(action.spec_target()),
                ) {
                    (Some(a), Some(t)) => {
                        &&& final(self).message@ == miss_message(a.name@, t.name@)
                        &&& final(self).transcript@.len() == old(self).transcript@.len() + 1
                        &&& final(self).transcript@.drop_last() == old(self).transcript@
                        &&& final(self).transcript@.last()@ == miss_line(a.id@, t.id@)
                        &&& final(self).feedback_events@ == old(self).feedback_events@.push(event)
                        &&& final(self).phase == BattlePhase::Resolve
                        &&& final(self).combatants == old(self).combatants
                    },
                    _ => final(self).message == old(self).message && final(self).transcript
                        == old(self).transcript && final(self).feedback_events
                        == old(self).feedback_events && final(self).phase == old(self).phase
                        && final(self).combatants == old(self).combatants,
                },
                BattleEvent::Damage { action, amount, critical, knocked_out } => match (
                    old(self).spec_actor(action.spec_attacker()),
                    old(self).spec_actor(action.spec_target()),
                ) {
                    (Some(a), Some(t)) => {
                        let i = first_index_of(old(self).combatants@, action.spec_target());
                        let actual = if amount <= t.health {
                            amount
                        } else {
                            t.health
                        };
                        &&& final(self).combatants@.len() == old(self).combatants@.len()
                        &&& forall|j: int|
                            0 <= j < old(self).combatants@.len() && j != i
                                ==> final(self).combatants@[j] == old(self).combatants@[j]
                        &&& final(self).combatants@[i].health == t.health - actual
                        &&& final(self).combatants@[i].same_but_health_and_statuses(&t)
                        &&& final(self).combatants@[i].status_effects@ == if actual > 0 {
                            crate::battle::model::without_effect(
                                t.status_effects@,
                                StatusEffect::Sleep,
                            )
                        } else {
                            t.status_effects@
                        }
                        &&& final(self).message@ == hit_message(
                            a.name@,
                            t.name@,
                            actual as nat,
                            critical,
                            knocked_out,
                        )
                        &&& final(self).transcript@.len() == old(self).transcript@.len() + 1
                        &&& final(self).transcript@.drop_last() == old(self).transcript@
                        &&& final(self).transcript@.last()@ == hit_line(
                            a.id@,
                            t.id@,
                            actual as nat,
                            critical,
                            knocked_out,
                        )
                        &&& final(self).feedback_events@ == old(self).feedback_events@.push(event)
                        &&& final(self).phase == BattlePhase::Resolve
                    },
                    _ => final(self).message == old(self).message && final(self).transcript
                        == old(self).transcript && final(self).feedback_events
                        == old(self).feedback_events && final(self).phase == old(self).phase
                        && final(self).combatants == old(self).combatants,
                },
                _ => {
                    &&& final(self).feedback_events@ == old(self).feedback_events@.push(event)
                    &&& final(self).message == old(self).message
                    &&& final(self).transcript == old(self).transcript
                    &&& final(self).phase == old(self).phase
                    &&& final(self).combatants == old(self).combatants
                },
            },
            final(self).same_bookkeeping(old(self)),
    {
        let action = match event {
            BattleEvent::Miss { action } => action,
            BattleEvent::Damage { action, .. } => action,
            _ => {
                self.feedback_events.push(event);
                return;
            },
        };
        let attacker_key = action.attacker();
        let target_key = action.target();
        let (attacker_id, attacker_name) = match self.actor(attacker_key) {
            Some(a) => (a.id.as_str().to_owned(), a.name.as_str().to_owned()),
            None => return,
        };
        let target_index = match self.actor_index(target_key) {
            Some(i) => i,
            None => return,
        };
        let target_id = self.combatants[target_index].id.as_str().to_owned();
        let target_name = self.combatants[target_index].name.as_str().to_owned();
        match event {
            BattleEvent::Damage { amount, critical, knocked_out, .. } => {
                proof {
                    reveal_strlit("");
                }
                let actual = self.combatants[target_index].apply_resolved_damage(amount);
                let amount_text = decimal_string(actual as u64);
                let mut message = if critical {
                    "Critical hit! ".to_owned()
                } else {
                    "".to_owned()
                };
                message.append(attacker_name.as_str());
                message.append(" attacks ");
                message.append(target_name.as_str());
                message.append(" for ");
                message.append(amount_text.as_str());
                message.append(" damage.");
                if knocked_out {
                    message.append(" KO!");
                }
                self.message = message;
                let mut line = if critical {
                    "CRITICAL".to_owned()
                } else {
                    "HIT".to_owned()
                };
                line.append(" ");
                line.append(attacker_id.as_str());
                line.append(" -> ");
                line.append(target_id.as_str());
                line.append(" ");
                line.append(amount_text.as_str());
                if knocked_out {
                    line.append(" KO");
                }
                self.transcript.push(line);
            },
            _ => {
                self.message = concat4(
                    attacker_name.as_str(),
                    " attacks ",
                    target_name.as_str(),
                    ", but misses.",
                );
                self.transcript.push(
                    concat4("MISS ", attacker_id.as_str(), " -> ", target_id.as_str()),
                );
            },
        }
        self.feedback_events.push(event);
        self.phase = BattlePhase::Resolve;
    }

    /// Resolves a physical attack and applies it.
    pub fn resolve_physical(
        &mut self,
        attacker_key: CombatantKey,
        target_key: CombatantKey,
        rng: &mut GameplayRng,
    ) -> (r: Option<BattleEvent>)
        ensures
            r == physical_outcome(
                old(self).combatants@,
                attacker_key,
                target_key,
                old(rng).spec_state(),
            ),
            final(rng).spec_state() == advanced(
                old(rng).spec_state(),
                physical_draws(old(self).combatants@, attacker_key, target_key, old(rng).spec_state()),
            ),
            r.is_none() ==> final(self).combatants == old(self).combatants && final(self).phase
                == old(self).phase,
            r.is_some() ==> final(self).phase == BattlePhase::Resolve,
            final(self).same_bookkeeping(old(self)),
            crate::battle::ability::only_health_and_statuses(final(self).combatants@, old(self).combatants@),
            crate::battle::ability::pools_ok(old(self).combatants@) ==> crate::battle::ability::pools_ok(final(self).combatants@),
            blow_applied(old(self).combatants@, final(self).combatants@, r),
            r matches Some(e) ==> final(self).feedback_events@ == old(self).feedback_events@.push(e),
            physical_resolved(
                *old(self),
                *final(self),
                attacker_key,
                target_key,
                old(rng).spec_state(),
                final(rng).spec_state(),
            ),
    {
        proof {
            reveal(physical_resolved);
        }
        let event = resolve_action(
            self,
            BattleAction::Physical { attacker: attacker_key, target: target_key },
            rng,
        );
        match event {
            Some(e) => {
                proof {
                    lemma_outcome_names_present(
                        self.combatants@,
                        attacker_key,
                        target_key,
                        old(rng).spec_state(),
                    );
                }
                let ghost before = self.combatants@;
                self.apply_event(e);
                proof {
                    let i = first_index_of(before, match e {
                        BattleEvent::Damage { action, .. } => action.spec_target(),
                        _ => target_key,
                    });
                    lemma_first_index_of_bounds(before, match e {
                        BattleEvent::Damage { action, .. } => action.spec_target(),
                        _ => target_key,
                    });
                    assert forall|j: int| #![auto] 0 <= j < self.combatants@.len() implies self.combatants@[j].same_but_health_and_statuses(&before[j]) && (before[j].pools_in_range() ==> self.combatants@[j].pools_in_range()) by {
                        if e is Damage && j != i {
                            assert(self.combatants@[j] == before[j]);
                        }
                    }
                }
                Some(e)
            },
            None => None,
        }
    }
}

proof fn lemma_outcome_names_present(cs: Seq<BattleCombatant>, attacker: CombatantKey, target: CombatantKey, s: u64)
    requires
        physical_outcome(cs, attacker, target, s).is_some(),
    ensures
        ({
            let e = physical_outcome(cs, attacker, target, s).unwrap();
            match e {
                BattleEvent::Miss { action } => actor_in(cs, action.spec_attacker()).is_some()
                    && actor_in(cs, action.spec_target()).is_some(),
                BattleEvent::Damage { action, .. } => actor_in(cs, action.spec_attacker()).is_some()
                    && actor_in(cs, action.spec_target()).is_some(),
                _ => false,
            }
        }),
{
}

/// The turn position `k` steps after `p` in an order of `len` turns.
pub open spec fn turn_position(p: int, k: int, len: int) -> int {
    (p + k) % len
}

/// A round counter `count` after `wraps` more rounds, saturating at `u32::MAX`.
pub open spec fn saturating_rounds(count: int, wraps: int) -> int {
    if count + wraps > u32::MAX {
        u32::MAX as int
    } else {
        count + wraps
    }
}

/// Whether turn position `pos` names a living combatant.
pub open spec fn turn_alive(cs: Seq<BattleCombatant>, order: Seq<CombatantKey>, pos: int) -> bool {
    0 <= pos < order.len() && (actor_in(cs, order[pos]) matches Some(c) && c.alive())
}

proof fn lemma_step_position(p: int, k: int, len: int)
    requires
        len > 0,
        p >= 0,
        k >= 0,
    ensures
        (p + k + 1) % len == ((p + k) % len + 1) % len,
        (p + k + 1) / len == (p + k) / len + (if (p + k) % len == len - 1 {
            1int
        } else {
            0int
        }),
        (((p + k) % len + 1) % len <= (p + k) % len) <==> ((p + k) % len == len - 1),
        0 <= (p + k) % len < len,
{
    let a = (p + k) % len;
    let t = (p + k) / len;
    vstd::arithmetic::div_mod::lemma_fundamental_div_mod(p + k, len);
    vstd::arithmetic::div_mod::lemma_mod_bound(p + k, len);
    if a < len - 1 {
        assert(p + k + 1 == t * len + (a + 1));
        vstd::arithmetic::div_mod::lemma_fundamental_div_mod_converse(p + k + 1, len, t, a + 1);
        vstd::arithmetic::div_mod::lemma_small_mod((a + 1) as nat, len as nat);
    } else {
        assert(p + k + 1 == (t + 1) * len + 0) by (nonlinear_arith)
            requires
                p + k == t * len + a,
                a == len - 1,
        ;
        vstd::arithmetic::div_mod::lemma_fundamental_div_mod_converse(p + k + 1, len, t + 1, 0);
        vstd::arithmetic::div_mod::lemma_fundamental_div_mod_converse(len, len, 1, 0);
    }
}


/// The debug name of a status, as messages and transcripts spell it.
pub open spec fn effect_name(e: StatusEffect) -> Seq<char> {
    match e {
        StatusEffect::Poison => "Poison"@,
        StatusEffect::Sleep => "Sleep"@,
        StatusEffect::Stun => "Stun"@,
        StatusEffect::Silence => "Silence"@,
        StatusEffect::Burn => "Burn"@,
        StatusEffect::Freeze => "Freeze"@,
        StatusEffect::Knockback => "Knockback"@,
        StatusEffect::Taunt => "Taunt"@,
        StatusEffect::AttackModifier => "AttackModifier"@,
        StatusEffect::DefenseModifier => "DefenseModifier"@,
        StatusEffect::MagicResistanceModifier => "MagicResistanceModifier"@,
        StatusEffect::HitChanceModifier => "HitChanceModifier"@,
        StatusEffect::DamageReduction => "DamageReduction"@,
        StatusEffect::RedirectDamage => "RedirectDamage"@,
    }
}

/// The debug name of a status.
pub fn effect_label(e: StatusEffect) -> (r: &'static str)
    ensures
        r@ == effect_name(e),
{
    match e {
        StatusEffect::Poison => "Poison",
        StatusEffect::Sleep => "Sleep",
        StatusEffect::Stun => "Stun",
        StatusEffect::Silence => "Silence",
        StatusEffect::Burn => "Burn",
        StatusEffect::Freeze => "Freeze",
        StatusEffect::Knockback => "Knockback",
        StatusEffect::Taunt => "Taunt",
        StatusEffect::AttackModifier => "AttackModifier",
        StatusEffect::DefenseModifier => "DefenseModifier",
        StatusEffect::MagicResistanceModifier => "MagicResistanceModifier",
        StatusEffect::HitChanceModifier => "HitChanceModifier",
        StatusEffect::DamageReduction => "DamageReduction",
        StatusEffect::RedirectDamage => "RedirectDamage",
    }
}

/// Whether `after` is `before` once the combatant at `i` has taken its end-of-turn tick and
/// the tick, if it hurt, was recorded for `key`.
pub open spec fn ticked(after: &BattleState, before: &BattleState, key: CombatantKey, i: int) -> bool {
    let cs = before.combatants@;
    let c = cs[i];
    let taken = tick_taken(c);
    &&& after.combatants@ == cs.update(i, after.combatants@[i])
    &&& after.combatants@[i].health == c.health - taken
    &&& after.combatants@[i].status_effects@ == tick_statuses_after(c)
    &&& after.combatants@[i].same_but_health_and_statuses(&c)
    &&& if taken > 0 {
        let knocked_out = c.health - taken == 0;
        &&& after.feedback_events@ == before.feedback_events@.push(
            BattleEvent::StatusDamage {
                target: key,
                effect: tick_effect(c.status_effects@),
                amount: taken as u32,
                knocked_out,
            },
        )
        &&& after.transcript@.len() == before.transcript@.len() + 1
        &&& after.transcript@.drop_last() == before.transcript@
        &&& after.transcript@.last()@ == status_line(key, taken, knocked_out)
    } else {
        after.feedback_events == before.feedback_events && after.transcript == before.transcript
    }
}

/// What assessing a resolved action does, from `before` to `after`: the active combatant's
/// statuses tick, then a side with nobody standing decides the battle (the enemies first),
/// else the battle moves on to the next turn.
pub open spec fn result_assessed(before: BattleState, after: BattleState) -> bool {
    &&& (after.same_bookkeeping(&before))
    &&& (crate::battle::ability::only_health_and_statuses(after.combatants@, before.combatants@))
    &&& (crate::battle::ability::pools_ok(before.combatants@) ==> crate::battle::ability::pools_ok(after.combatants@))
    &&& (side_defeated(after.combatants@, BattleSide::Enemy) ==> {
        &&& after.phase == BattlePhase::Victory
        &&& after.message@ == "Victory! Press Enter to return to the world."@
        &&& after.transcript@.last()@ == "VICTORY"@
    })
    &&& (!side_defeated(after.combatants@, BattleSide::Enemy) && side_defeated(
        after.combatants@,
        BattleSide::Party,
    ) ==> {
        &&& after.phase == BattlePhase::Defeat
        &&& after.message@ == "The party was defeated."@
        &&& after.transcript@.last()@ == "DEFEAT"@
    })
    &&& (!side_defeated(after.combatants@, BattleSide::Enemy) && !side_defeated(
        after.combatants@,
        BattleSide::Party,
    ) ==> after.phase == BattlePhase::Advance)
    &&& (exists|mid: BattleState|
        #![trigger mid.combatants]
        mid.combatants == after.combatants && mid.same_bookkeeping(&before)
            && match before.spec_active_key() {
            Some(k) if first_index_of(before.combatants@, k) >= 0 => ticked(
                &mid,
                &before,
                k,
                first_index_of(before.combatants@, k),
            ),
            _ => mid.combatants == before.combatants,
        })
}

impl BattleState {
    /// The active combatant's end-of-turn status tick, recorded when it hurts.
    pub fn tick_active_statuses(&mut self)
        ensures
            final(self).same_bookkeeping(old(self)),
            final(self).phase == old(self).phase,
            final(self).message == old(self).message,
            match old(self).spec_active_key() {
                Some(k) if first_index_of(old(self).combatants@, k) >= 0 => ticked(
                    final(self),
                    old(self),
                    k,
                    first_index_of(old(self).combatants@, k),
                ),
                _ => final(self).combatants == old(self).combatants && final(self).transcript
                    == old(self).transcript && final(self).feedback_events == old(
                    self,
                ).feedback_events,
            },
    {
        let key = match self.active_key() {
            Some(k) => k,
            None => return,
        };
        let ghost cs = self.combatants@;
        proof {
            lemma_first_index_of_bounds(cs, key);
        }
        let i = match self.actor_index(key) {
            Some(i) => i,
            None => return,
        };
        let effect = if self.combatants[i].has_status(StatusEffect::Poison) {
            StatusEffect::Poison
        } else if self.combatants[i].has_status(StatusEffect::Burn) {
            StatusEffect::Burn
        } else {
            StatusEffect::Poison
        };
        let tick = self.combatants[i].tick_statuses();
        proof {
            assert(self.combatants@ =~= cs.update(i as int, self.combatants@[i as int]));
        }
        if tick.damage > 0 {
            let knocked_out = !self.combatants[i].is_alive();
            self.feedback_events.push(
                BattleEvent::StatusDamage { target: key, effect, amount: tick.damage, knocked_out },
            );
            let mut line = "STATUS ".to_owned();
            line.append(side_label(key.side));
            line.append(":");
            let index = decimal_string(key.index as u64);
            line.append(index.as_str());
            line.append(" ");
            let amount = decimal_string(tick.damage as u64);
            line.append(amount.as_str());
            if knocked_out {
                line.append(" KO");
            }
            proof {
                reveal_strlit("");
            }
            let ghost t0 = self.transcript@;
            self.transcript.push(line);
            proof {
                assert(self.transcript@.drop_last() =~= t0);
            }
        }
    }

    /// Ends an action: ticks the active combatant's statuses, then declares victory when every
    /// enemy is down, defeat when every party member is, and otherwise moves on.
    pub fn assess_result(&mut self)
        ensures
            result_assessed(*old(self), *final(self)),
    {
        let ghost start = self.combatants@;
        self.tick_active_statuses();
        let ghost mid = *self;
        proof {
            match old(self).spec_active_key() {
                Some(k) => {
                    let i = first_index_of(start, k);
                    if i >= 0 {
                        lemma_first_index_of_bounds(start, k);
                        assert forall|j: int| #![auto] 0 <= j < mid.combatants@.len() implies mid.combatants@[j].same_but_health_and_statuses(&start[j]) && (start[j].pools_in_range() ==> mid.combatants@[j].pools_in_range()) by {
                            if j != i {
                                assert(mid.combatants@[j] == start[j]);
                            }
                        }
                    }
                },
                None => {},
            }
        }
        if self.all_defeated(BattleSide::Enemy) {
            self.phase = BattlePhase::Victory;
            self.message = "Victory! Press Enter to return to the world.".to_owned();
            self.transcript.push("VICTORY".to_owned());
        } else if self.all_defeated(BattleSide::Party) {
            self.phase = BattlePhase::Defeat;
            self.message = "The party was defeated.".to_owned();
            self.transcript.push("DEFEAT".to_owned());
        } else {
            self.phase = BattlePhase::Advance;
        }
        assert(mid.combatants == self.combatants);
    }

    /// Whether a menu command is open to the active combatant.
    pub open spec fn spec_command_available(&self, command: BattleCommand) -> bool {
        match self.spec_active_key() {
            Some(k) => match self.spec_actor(k) {
                Some(a) => a.alive() && match command {
                    BattleCommand::Spell => !carries(a.status_effects@, StatusEffect::Silence)
                        && exists|i: int|
                        0 <= i < a.abilities@.len()
                            && crate::battle::ability::spec_battle_ability(
                            #[trigger] a.abilities@[i],
                        ),
                    BattleCommand::Item => self.item_choices@.len() > 0,
                    _ => true,
                },
                None => false,
            },
            None => false,
        }
    }

    /// Whether a menu command is open to the active combatant: every command needs it alive;
    /// spells also need it unsilenced with a castable ability, items a non-empty bag.
    pub fn command_available(&self, command: BattleCommand) -> (r: bool)
        ensures
            r == self.spec_command_available(command),
    {
        let key = match self.active_key() {
            Some(k) => k,
            None => return false,
        };
        let active = match self.actor(key) {
            Some(a) => a,
            None => return false,
        };
        if !active.is_alive() {
            return false;
        }
        match command {
            BattleCommand::Attack => true,
            BattleCommand::Run => true,
            BattleCommand::Item => self.item_choices.len() > 0,
            BattleCommand::Spell => {
                if active.is_silenced() {
                    return false;
                }
                let mut i: usize = 0;
                while i < active.abilities.len()
                    invariant
                        i <= active.abilities@.len(),
                        self.spec_active_key() == Some(key),
                        self.spec_actor(key) == Some(*active),
                        active.alive(),
                        !carries(active.status_effects@, StatusEffect::Silence),
                        command == BattleCommand::Spell,
                        forall|k: int|
                            0 <= k < i ==> !crate::battle::ability::spec_battle_ability(
                                #[trigger] active.abilities@[k],
                            ),
                    decreases active.abilities.len() - i,
                {
                    if crate::battle::ability::battle_ability(&active.abilities[i]) {
                        assert(crate::battle::ability::spec_battle_ability(active.abilities@[i as int]));
                        return true;
                    }
                    i = i + 1;
                }
                false
            },
        }
    }
}


/// The battle after one step of the turn order from `before`: the next position, wrapping
/// to the start and counting a new round (saturating) when it wraps.
pub open spec fn stepped_turn(before: BattleState) -> BattleState {
    let len = before.turn_order@.len();
    if len == 0 {
        before
    } else {
        let next = (before.active_turn + 1) % (len as int);
        BattleState {
            active_turn: next as usize,
            turn_count: if next <= before.active_turn {
                if before.turn_count == u32::MAX {
                    u32::MAX
                } else {
                    (before.turn_count + 1) as u32
                }
            } else {
                before.turn_count
            },
            ..before
        }
    }
}

/// What starting the active turn does, from `before` (and generator `rng_before`) to `after`
/// (and `rng_after`): knocked-out combatants' turns are passed over; with nobody left to act
/// the battle is lost; a party member under a turn-stopping status loses its turn; a party
/// member otherwise gets the command menu; an enemy takes its turn.
pub open spec fn turn_begun(
    before: BattleState,
    after: BattleState,
    rng_before: GameplayRng,
    rng_after: GameplayRng,
) -> bool {
    &&& (before.turn_order@.len() == 0 ==> after.phase == BattlePhase::Defeat)
    &&& ({
        let k = after.spec_active_key();
        k is Some && after.spec_actor(k.unwrap()) is Some ==> {
            let a = after.spec_actor(k.unwrap()).unwrap();
            &&& a.key.side == BattleSide::Party ==> (crate::battle::model::first_skip(a.status_effects@) matches Some(e) ==> {
                &&& after.phase == BattlePhase::Resolve
                &&& after.message@ == a.name@ + " can't move ("@ + effect_name(e) + ")!"@
            })
            &&& crate::battle::model::first_skip(a.status_effects@) is None && a.key.side == BattleSide::Party ==> {
                &&& after.phase == BattlePhase::Command
                &&& after.command_index == 0
                &&& after.message@ == a.name@ + ": choose an action."@
            }
        }
    })
    &&& ((after.spec_active_key() is None || after.spec_actor(after.spec_active_key().unwrap()) is None)
        ==> after.phase == BattlePhase::Defeat)
    &&& ({
        let k = after.spec_active_key();
        let enemy_acts = k matches Some(key) && first_index_of(before.combatants@, key) >= 0
            && key.side == BattleSide::Enemy && crate::battle::model::first_skip(
            before.combatants@[first_index_of(before.combatants@, key)].status_effects@,
        ) is None;
        &&& !enemy_acts ==> rng_after == rng_before
        &&& enemy_acts ==> exists|mid: BattleState|
            #[trigger] crate::battle::enemy_ai::enemy_turn_taken(mid, after, rng_before, rng_after)
                && mid.combatants == before.combatants && mid.turn_order == before.turn_order
                && mid.used_enemy_moves == before.used_enemy_moves && mid.spec_active_key() == k
                && mid.turn_count == after.turn_count && mid.phase == before.phase
                && mid.feedback_events == before.feedback_events
    })
}

impl BattleState {
    /// Starts the turn of the next living combatant: with none left the battle is lost; a
    /// combatant held by a status loses its turn; a party member is asked for a command; an
    /// enemy acts at once.
    pub fn begin_active_turn(&mut self, rng: &mut GameplayRng)
        requires
            forall|i: int|
                0 <= i < old(self).combatants@.len() ==> crate::battle::enemy_ai::moves_bounded(
                    #[trigger] old(self).combatants@[i],
                ),
        ensures
            final(self).turn_order == old(self).turn_order,
            crate::battle::ability::only_health_and_statuses(final(self).combatants@, old(self).combatants@),
            crate::battle::ability::pools_ok(old(self).combatants@) ==> crate::battle::ability::pools_ok(final(self).combatants@),
            forall|i: int|
                0 <= i < final(self).combatants@.len() ==> crate::battle::enemy_ai::moves_bounded(
                    #[trigger] final(self).combatants@[i],
                ),
            turn_begun(*old(self), *final(self), *old(rng), *final(rng)),
    {
        self.skip_knocked_out();
        let ghost cs = self.combatants@;
        let key = match self.active_key() {
            Some(k) => k,
            None => {
                self.phase = BattlePhase::Defeat;
                return;
            },
        };
        let i = match self.actor_index(key) {
            Some(i) => i,
            None => {
                self.phase = BattlePhase::Defeat;
                return;
            },
        };
        let id = self.combatants[i].id.clone();
        let name = self.combatants[i].name.clone();
        self.transcript.push(concat2("TURN ", id.as_str()));
        if let Some(effect) = self.combatants[i].skip_turn_reason() {
            let mut message = concat3(name.as_str(), " can't move (", effect_label(effect));
            message.append(")!");
            self.message = message;
            let mut line = concat3("SKIP ", id.as_str(), " ");
            line.append(effect_label(effect));
            self.transcript.push(line);
            self.phase = BattlePhase::Resolve;
            return;
        }
        proof {
            lemma_first_index_of_bounds(self.combatants@, key);
        }
        if self.combatants[i].key.side == BattleSide::Party {
            self.phase = BattlePhase::Command;
            self.command_index = 0;
            self.message = concat2(name.as_str(), ": choose an action.");
        } else {
            let ghost before = self.combatants@;
            let ghost mid = *self;
            self.resolve_enemy_action(rng);
            proof {
                assert(crate::battle::enemy_ai::enemy_turn_taken(mid, *self, *old(rng), *rng));
                assert(mid.combatants == old(self).combatants);
                assert(mid.turn_order == old(self).turn_order);
                assert(mid.used_enemy_moves == old(self).used_enemy_moves);
                assert(mid.spec_active_key() == self.spec_active_key());
                assert(mid.turn_count == self.turn_count);
                assert(mid.phase == old(self).phase);
                assert(mid.feedback_events == old(self).feedback_events);
                assert(exists|m: BattleState|
                    #[trigger] crate::battle::enemy_ai::enemy_turn_taken(m, *self, *old(rng), *rng)
                        && m.combatants == old(self).combatants && m.turn_order == old(self).turn_order
                        && m.used_enemy_moves == old(self).used_enemy_moves && m.spec_active_key()
                        == self.spec_active_key() && m.turn_count == self.turn_count && m.phase
                        == old(self).phase && m.feedback_events == old(self).feedback_events);
            }
            proof {
                assert forall|j: int| 0 <= j < before.len() implies #[trigger] self.combatants@[j].key == before[j].key by {
                    assert(self.combatants@[j].same_but_health_and_statuses(&before[j]));
                }
                lemma_first_index_of_same_keys(self.combatants@, before, key);
                lemma_first_index_of_bounds(self.combatants@, key);
                assert(self.combatants@[first_index_of(self.combatants@, key)].key == key);
            }
        }
    }
}


/// How many participants before position `i` stand on `side`.
pub open spec fn side_count(ps: Seq<BattleParticipant>, i: int, side: BattleSide) -> nat
    decreases i,
{
    if i <= 0 {
        0
    } else {
        side_count(ps, i - 1, side) + (if ps[i - 1].side == side {
            1nat
        } else {
            0nat
        })
    }
}

/// Whether `c` is participant `p` entering battle with index `index` on its side: the same
/// numbers, names and rules, and each carried status as a lasting battle status.
pub open spec fn enters_as(c: BattleCombatant, p: BattleParticipant, index: nat) -> bool {
    &&& c.key == (CombatantKey { side: p.side, index: index as usize })
    &&& c.id@ == p.id@
    &&& c.name@ == p.name@
    &&& c.class_id@ == p.class_id@
    &&& c.health == p.health
    &&& c.max_health == p.max_health
    &&& c.mana == p.mana
    &&& c.max_mana == p.max_mana
    &&& c.attack == p.attack
    &&& c.defense == p.defense
    &&& c.magic_resistance == p.magic_resistance
    &&& c.dexterity == p.dexterity
    &&& c.abilities == p.abilities
    &&& c.status_effects@ == p.status_effects@.map_values(
        |s: ItemStatus| ActiveStatus {
            effect: StatusEffect::spec_from_item(s),
            remaining_turns: None,
            potency: crate::battle::status::StatusPotency::Inert,
        },
    )
    &&& c.accessory == p.accessory
    &&& c.row == p.row
    &&& c.boss == p.boss
    &&& c.enemy_type == p.enemy_type
    &&& c.immunities == p.immunities
    &&& c.behavior == p.behavior
    &&& c.experience_yield == p.experience_yield
    &&& c.drops == p.drops
}

impl BattleCombatant {
    /// A participant entering battle as the `index`th combatant of its side.
    pub fn from_participant(participant: BattleParticipant, index: usize) -> (r: Self)
        ensures
            enters_as(r, participant, index as nat),
    {
        let mut statuses: Vec<ActiveStatus> = Vec::new();
        let mut i: usize = 0;
        while i < participant.status_effects.len()
            invariant
                i <= participant.status_effects@.len(),
                statuses@ == participant.status_effects@.take(i as int).map_values(
                    |s: ItemStatus| ActiveStatus {
                        effect: StatusEffect::spec_from_item(s),
                        remaining_turns: None,
                        potency: crate::battle::status::StatusPotency::Inert,
                    },
                ),
            decreases participant.status_effects.len() - i,
        {
            statuses.push(ActiveStatus::persistent(StatusEffect::from_item(participant.status_effects[i])));
            proof {
                assert(statuses@ =~= participant.status_effects@.take(i + 1).map_values(
                    |s: ItemStatus| ActiveStatus {
                        effect: StatusEffect::spec_from_item(s),
                        remaining_turns: None,
                        potency: crate::battle::status::StatusPotency::Inert,
                    },
                ));
            }
            i = i + 1;
        }
        proof {
            assert(participant.status_effects@.take(participant.status_effects@.len() as int) =~= participant.status_effects@);
        }
        let ghost p = participant;
        let BattleParticipant {
            side, id, name, class_id, health, max_health, mana, max_mana, attack, defense,
            magic_resistance, dexterity, abilities, status_effects: _, accessory, row, boss,
            enemy_type, immunities, behavior, experience_yield, drops,
        } = participant;
        BattleCombatant {
            key: CombatantKey { side, index },
            id,
            name,
            class_id,
            health,
            max_health,
            mana,
            max_mana,
            attack,
            defense,
            magic_resistance,
            dexterity,
            abilities,
            status_effects: statuses,
            accessory,
            row,
            boss,
            enemy_type,
            immunities,
            behavior,
            experience_yield,
            drops,
        }
    }
}

impl BattleState {
    /// A battle about to start: each participant enters in order with its index on its side;
    /// the living take turns by dexterity; the first round begins.
    pub fn from_entry(entry: BattleEntry) -> (r: Self)
        ensures
            r.combatants@.len() == entry.participants@.len(),
            forall|i: int|
                0 <= i < r.combatants@.len() ==> enters_as(
                    #[trigger] r.combatants@[i],
                    entry.participants@[i],
                    side_count(entry.participants@, i, entry.participants@[i].side),
                ),
            exists|p: Seq<crate::battle::rules::TurnEntry>|
                p.to_multiset() == crate::battle::rules::living_entries(r.combatants@).to_multiset()
                    && crate::battle::rules::in_turn_order(p)
                    && r.turn_order@ == crate::battle::rules::entry_keys(p),
            r.phase == BattlePhase::Start,
            r.active_turn == 0,
            r.turn_count == 1,
            r.command_index == 0,
            r.ability_index == 0,
            r.pending_ability is None,
            r.item_index == 0,
            r.item_choices@.len() == 0,
            r.pending_item is None,
            r.target is None,
            r.message@ == "Battle start!"@,
            r.transcript@.len() == 1,
            r.transcript@[0]@ == "START "@ + entry.encounter_id@,
            r.feedback_events@.len() == 0,
            r.used_enemy_moves@.len() == 0,
            r.rewards is None,
            r.flee_outcome is None,
    {
        let ghost ps = entry.participants@;
        let BattleEntry { encounter_id, participants } = entry;
        let mut participants = participants;
        let n = participants.len();
        let mut combatants: Vec<BattleCombatant> = Vec::new();
        let mut party_index: usize = 0;
        let mut enemy_index: usize = 0;
        let mut i: usize = 0;
        proof {
            assert(participants@.skip(0) =~= ps);
        }
        while i < n
            invariant
                n == ps.len(),
                i <= n,
                participants@ == ps.skip(i as int),
                combatants@.len() == i,
                party_index == side_count(ps, i as int, BattleSide::Party),
                enemy_index == side_count(ps, i as int, BattleSide::Enemy),
                party_index + enemy_index == i,
                forall|k: int|
                    0 <= k < i ==> enters_as(#[trigger] combatants@[k], ps[k], side_count(ps, k, ps[k].side)),
            decreases n - i,
        {
            let participant = participants.remove(0);
            proof {
                assert(participant == ps[i as int]);
                assert(participants@ =~= ps.skip(i + 1));
            }
            let index = match participant.side {
                BattleSide::Party => {
                    let current = party_index;
                    party_index = party_index + 1;
                    current
                },
                BattleSide::Enemy => {
                    let current = enemy_index;
                    enemy_index = enemy_index + 1;
                    current
                },
            };
            let combatant = BattleCombatant::from_participant(participant, index);
            combatants.push(combatant);
            i = i + 1;
        }
        let turn_order = crate::battle::rules::calculate_turn_order(combatants.as_slice());
        let mut transcript: Vec<String> = Vec::new();
        transcript.push(concat2("START ", encounter_id.as_str()));
        BattleState {
            phase: BattlePhase::Start,
            combatants,
            turn_order,
            active_turn: 0,
            turn_count: 1,
            command_index: 0,
            ability_index: 0,
            pending_ability: None,
            item_index: 0,
            item_choices: Vec::new(),
            pending_item: None,
            target: None,
            message: "Battle start!".to_owned(),
            transcript,
            feedback_events: Vec::new(),
            used_enemy_moves: Vec::new(),
            rewards: None,
            flee_outcome: None,
        }
    }

    /// Moves to the next turn (when there is a turn order) and starts it.
    pub fn advance(&mut self, rng: &mut GameplayRng)
        requires
            forall|i: int|
                0 <= i < old(self).combatants@.len() ==> crate::battle::enemy_ai::moves_bounded(
                    #[trigger] old(self).combatants@[i],
                ),
        ensures
            final(self).turn_order == old(self).turn_order,
            crate::battle::ability::only_health_and_statuses(final(self).combatants@, old(self).combatants@),
            crate::battle::ability::pools_ok(old(self).combatants@) ==> crate::battle::ability::pools_ok(final(self).combatants@),
            forall|i: int|
                0 <= i < final(self).combatants@.len() ==> crate::battle::enemy_ai::moves_bounded(
                    #[trigger] final(self).combatants@[i],
                ),
            old(self).turn_order@.len() == 0 ==> final(self).phase == BattlePhase::Defeat,
            turn_begun(stepped_turn(*old(self)), *final(self), *old(rng), *final(rng)),
    {
        if self.turn_order.len() > 0 {
            self.step_turn();
        }
        self.begin_active_turn(rng);
    }
}


impl BattleState {
    /// Runs the active enemy's turn.
    pub fn resolve_enemy_action(&mut self, rng: &mut GameplayRng)
        requires
            forall|i: int|
                0 <= i < old(self).combatants@.len() ==> crate::battle::enemy_ai::moves_bounded(
                    #[trigger] old(self).combatants@[i],
                ),
        ensures
            crate::battle::ability::only_health_and_statuses(final(self).combatants@, old(self).combatants@),
            crate::battle::ability::pools_ok(old(self).combatants@) ==> crate::battle::ability::pools_ok(final(self).combatants@),
            final(self).turn_order == old(self).turn_order,
            final(self).active_turn == old(self).active_turn,
            final(self).turn_count == old(self).turn_count,
            forall|i: int|
                0 <= i < final(self).combatants@.len() ==> crate::battle::enemy_ai::moves_bounded(
                    #[trigger] final(self).combatants@[i],
                ),
            crate::battle::enemy_ai::enemy_turn_taken(*old(self), *final(self), *old(rng), *final(rng)),
    {
        crate::battle::enemy_ai::resolve_enemy_turn(self, rng);
        proof {
            reveal(crate::battle::enemy_ai::enemy_turn_taken);
        }
    }
}

} // verus!
