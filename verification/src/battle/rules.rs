//! Turn order, hit and damage formulas, and escape rules.

use vstd::prelude::*;

use crate::battle::model::{
    mitigated, BattleCombatant, BattlePhase, BattleSide, CombatantKey, FleeOutcome, PartyRow,
};
use crate::gameplay_rng::{output, next_state, GameplayRng};
use crate::scenario_balance::BalanceData;
use crate::scenario_class::MYRIAD;
use crate::text::str_equals;

verus! {

broadcast use vstd::seq_lib::group_to_multiset_ensures;

/// The turn-order tiebreak between sides: the party moves first.
pub open spec fn spec_side_priority(side: BattleSide) -> u8 {
    match side {
        BattleSide::Party => 0,
        BattleSide::Enemy => 1,
    }
}

/// The turn-order tiebreak between sides: the party moves first.
pub fn side_priority(side: BattleSide) -> (r: u8)
    ensures
        r == spec_side_priority(side),
{
    match side {
        BattleSide::Party => 0,
        BattleSide::Enemy => 1,
    }
}

/// One living combatant's place in the turn order: its dexterity and its key.
pub type TurnEntry = (i64, CombatantKey);

/// Whether `a` acts no later than `b`: higher dexterity first, then the party, then the lower
/// index.
pub open spec fn acts_no_later(a: TurnEntry, b: TurnEntry) -> bool {
    a.0 > b.0 || (a.0 == b.0 && (spec_side_priority(a.1.side) < spec_side_priority(b.1.side)
        || (spec_side_priority(a.1.side) == spec_side_priority(b.1.side) && a.1.index
        <= b.1.index)))
}

/// Whether `s` is ordered by [`acts_no_later`].
pub open spec fn in_turn_order(s: Seq<TurnEntry>) -> bool {
    forall|i: int, j: int| 0 <= i < j < s.len() ==> acts_no_later(s[i], s[j])
}

/// The turn entries of the living combatants, in combatant order.
pub open spec fn living_entries(cs: Seq<BattleCombatant>) -> Seq<TurnEntry>
    decreases cs.len(),
{
    if cs.len() == 0 {
        Seq::empty()
    } else {
        let rest = living_entries(cs.drop_last());
        if cs.last().alive() {
            rest.push((cs.last().dexterity, cs.last().key))
        } else {
            rest
        }
    }
}

/// The keys of a sequence of turn entries.
pub open spec fn entry_keys(s: Seq<TurnEntry>) -> Seq<CombatantKey> {
    s.map_values(|e: TurnEntry| e.1)
}

/// The turn order is fully determined: two orderings of the same entries, each in turn
/// order, are the same sequence.
pub proof fn lemma_turn_order_unique(a: Seq<TurnEntry>, b: Seq<TurnEntry>)
    requires
        in_turn_order(a),
        in_turn_order(b),
        a.to_multiset() == b.to_multiset(),
    ensures
        a == b,
    decreases a.len(),
{
    assert(a.len() == a.to_multiset().len());
    assert(b.len() == b.to_multiset().len());
    if a.len() > 0 {
        assert(a.contains(a[0]) && b.to_multiset().count(a[0]) > 0);
        assert(b.contains(b[0]) && a.to_multiset().count(b[0]) > 0);
        let k = choose|k: int| 0 <= k < b.len() && b[k] == a[0];
        let m = choose|m: int| 0 <= m < a.len() && a[m] == b[0];
        assert(acts_no_later(b[0], a[0])) by {
            if k > 0 {
                assert(acts_no_later(b[0], b[k]));
            }
        }
        assert(acts_no_later(a[0], b[0])) by {
            if m > 0 {
                assert(acts_no_later(a[0], a[m]));
            }
        }
        assert(a[0].1.side == b[0].1.side) by {
            assert(spec_side_priority(a[0].1.side) == spec_side_priority(b[0].1.side));
        }
        assert(a[0] == b[0]);
        assert(a.remove(0) =~= a.drop_first());
        assert(b.remove(0) =~= b.drop_first());
        assert(a.drop_first().to_multiset() == b.drop_first().to_multiset());
        assert(in_turn_order(a.drop_first())) by {
            assert forall|i: int, j: int| 0 <= i < j < a.drop_first().len() implies acts_no_later(
                a.drop_first()[i],
                a.drop_first()[j],
            ) by {
                assert(a.drop_first()[i] == a[i + 1] && a.drop_first()[j] == a[j + 1]);
            }
        }
        assert(in_turn_order(b.drop_first())) by {
            assert forall|i: int, j: int| 0 <= i < j < b.drop_first().len() implies acts_no_later(
                b.drop_first()[i],
                b.drop_first()[j],
            ) by {
                assert(b.drop_first()[i] == b[i + 1] && b.drop_first()[j] == b[j + 1]);
            }
        }
        lemma_turn_order_unique(a.drop_first(), b.drop_first());
        assert(a =~= seq![a[0]] + a.drop_first());
        assert(b =~= seq![b[0]] + b.drop_first());
    } else {
        assert(a =~= b);
    }
}

/// The turn order: the living combatants sorted by dexterity (highest first), then party
/// before enemies, then by index. Knocked-out combatants take no turn.
pub fn calculate_turn_order(combatants: &[BattleCombatant]) -> (r: Vec<CombatantKey>)
    ensures
        exists|p: Seq<TurnEntry>|
            p.to_multiset() == living_entries(combatants@).to_multiset() && in_turn_order(p)
                && r@ == entry_keys(p),
{
    let n = combatants.len();
    let mut sorted: Vec<TurnEntry> = Vec::new();
    let mut i: usize = 0;
    while i < n
        invariant
            n == combatants@.len(),
            0 <= i <= n,
            sorted@.to_multiset() == living_entries(combatants@.subrange(0, i as int)).to_multiset(),
            in_turn_order(sorted@),
        decreases n - i,
    {
        let ghost prefix = combatants@.subrange(0, i + 1);
        assert(prefix.drop_last() == combatants@.subrange(0, i as int));
        let actor = &combatants[i];
        if actor.is_alive() {
            let entry: TurnEntry = (actor.dexterity, actor.key);
            insert_in_turn_order(&mut sorted, entry);
        }
        i = i + 1;
    }
    assert(combatants@.subrange(0, n as int) == combatants@);
    let m = sorted.len();
    let mut keys: Vec<CombatantKey> = Vec::new();
    let mut j: usize = 0;
    while j < m
        invariant
            m == sorted@.len(),
            0 <= j <= m,
            keys@ == entry_keys(sorted@.subrange(0, j as int)),
        decreases m - j,
    {
        keys.push(sorted[j].1);
        proof {
            assert(entry_keys(sorted@.subrange(0, j + 1)) == entry_keys(
                sorted@.subrange(0, j as int),
            ).push(sorted@[j as int].1));
        }
        j = j + 1;
    }
    assert(sorted@.subrange(0, m as int) == sorted@);
    keys
}

/// Whether `a` acts no later than `b`.
fn acts_no_later_exec(a: TurnEntry, b: TurnEntry) -> (r: bool)
    ensures
        r == acts_no_later(a, b),
{
    let pa = side_priority(a.1.side);
    let pb = side_priority(b.1.side);
    a.0 > b.0 || (a.0 == b.0 && (pa < pb || (pa == pb && a.1.index <= b.1.index)))
}

/// Inserts `entry` into an ordered sequence of entries, keeping it ordered.
fn insert_in_turn_order(sorted: &mut Vec<TurnEntry>, entry: TurnEntry)
    requires
        in_turn_order(old(sorted)@),
    ensures
        in_turn_order(final(sorted)@),
        final(sorted)@.to_multiset() == old(sorted)@.to_multiset().insert(entry),
{
    let n = sorted.len();
    let mut pos: usize = 0;
    while pos < n && acts_no_later_exec(sorted[pos], entry)
        invariant
            n == sorted@.len(),
            0 <= pos <= n,
            *sorted == *old(sorted),
            forall|k: int| 0 <= k < pos ==> acts_no_later(sorted@[k], entry),
        decreases n - pos,
    {
        pos = pos + 1;
    }
    let ghost old_seq = sorted@;
    sorted.insert(pos, entry);
    proof {
        let s = sorted@;
        assert(s == old_seq.insert(pos as int, entry));
        assert forall|i: int, j: int| 0 <= i < j < s.len() implies acts_no_later(s[i], s[j]) by {
            if j < pos {
                assert(s[i] == old_seq[i] && s[j] == old_seq[j]);
            } else if j == pos {
                assert(s[i] == old_seq[i]);
            } else if i == pos {
                assert(s[j] == old_seq[j - 1]);
                assert(!acts_no_later(old_seq[pos as int], entry));
                assert(acts_no_later(old_seq[pos as int], old_seq[j - 1]) || pos as int == j - 1);
            } else if i < pos {
                assert(s[i] == old_seq[i] && s[j] == old_seq[j - 1]);
            } else {
                assert(s[i] == old_seq[i - 1] && s[j] == old_seq[j - 1]);
            }
        }
    }
}

/// The chance (per-myriad) that a physical blow lands: 70% plus 2% per point of dexterity
/// the attacker has over the defender, kept within 5%..=95%.
pub open spec fn spec_physical_hit_chance(attacker_dex: int, defender_dex: int) -> int {
    let raw = 7_000 + 200 * (attacker_dex - defender_dex);
    if raw < 500 {
        500
    } else if raw > 9_500 {
        9_500
    } else {
        raw
    }
}

/// The chance (per-myriad) that a physical blow lands.
pub fn physical_hit_chance(attacker_dex: i64, defender_dex: i64) -> (r: u32)
    ensures
        r == spec_physical_hit_chance(attacker_dex as int, defender_dex as int),
{
    let raw = 7_000i128 + 200i128 * (attacker_dex as i128 - defender_dex as i128);
    if raw < 500 {
        500
    } else if raw > 9_500 {
        9_500
    } else {
        raw as u32
    }
}

/// The chance (per-myriad) of a critical hit: 2% per point of (non-negative) dexterity, at
/// most 25%.
pub open spec fn spec_critical_hit_chance(attacker_dex: int) -> int {
    let dex = if attacker_dex < 0 {
        0
    } else {
        attacker_dex
    };
    if dex * 200 > 2_500 {
        2_500
    } else {
        dex * 200
    }
}

/// The chance (per-myriad) of a critical hit.
pub fn critical_hit_chance(attacker_dex: i64) -> (r: u32)
    ensures
        r == spec_critical_hit_chance(attacker_dex as int),
{
    if attacker_dex <= 0 {
        0
    } else if attacker_dex >= 13 {
        2_500
    } else {
        (attacker_dex * 200) as u32
    }
}

/// A critical hit deals half again as much, rounded down.
pub fn critical_damage(damage: u32) -> (r: u32)
    ensures
        r == (if damage as int * 3 > u32::MAX {
            u32::MAX as int
        } else {
            damage as int * 3
        }) / 2,
{
    let tripled: u64 = damage as u64 * 3;
    let capped: u64 = if tripled > u32::MAX as u64 {
        u32::MAX as u64
    } else {
        tripled
    };
    (capped / 2) as u32
}

/// The physical damage `attacker` deals `defender` before any hit or critical roll.
pub open spec fn spec_physical_damage(attacker: BattleCombatant, defender: BattleCombatant) -> nat {
    let diff = attacker.spec_effective_attack() - defender.spec_effective_defense();
    let base = (if diff < 1 {
        1
    } else {
        diff
    }) as u32;
    let after_attacker = if attacker.row == PartyRow::Back {
        halved(base as nat)
    } else {
        base as nat
    };
    let after_defender = if defender.key.side == BattleSide::Party && defender.row
        == PartyRow::Back {
        halved(after_attacker)
    } else {
        after_attacker
    };
    let dealt = mitigated(after_defender, defender.status_effects@);
    if dealt <= defender.health {
        dealt
    } else {
        defender.health as nat
    }
}

/// Half of `x`, rounded down, but at least one.
pub open spec fn halved(x: nat) -> nat {
    if x / 2 == 0 {
        1
    } else {
        x / 2
    }
}

/// Physical damage: effective attack minus effective defense (at least one), halved for a
/// back-row attacker and again for a back-row party defender (each at least one), then
/// mitigated by the defender's damage reductions and capped at its remaining health.
pub fn physical_damage(attacker: &BattleCombatant, defender: &BattleCombatant) -> (r: u32)
    ensures
        r == spec_physical_damage(*attacker, *defender),
{
    let diff = attacker.effective_attack() - defender.effective_defense();
    let mut damage = (if diff < 1 {
        1
    } else {
        diff
    }) as u32;
    if attacker.row == PartyRow::Back {
        damage = if damage / 2 == 0 {
            1
        } else {
            damage / 2
        };
    }
    if defender.key.side == BattleSide::Party && defender.row == PartyRow::Back {
        damage = if damage / 2 == 0 {
            1
        } else {
            damage / 2
        };
    }
    let dealt = defender.mitigated_damage(damage);
    if dealt <= defender.health {
        dealt
    } else {
        defender.health
    }
}

/// Whether a roll whose value is `value` succeeds at `chance` (per-myriad): the top 53 bits of
/// the value, read as a fraction of one, fall below the chance.
pub open spec fn roll_hits(value: u64, chance: nat) -> bool {
    ((value >> 11u64) as nat) * (MYRIAD as nat) < chance * 0x20_0000_0000_0000
}

/// Draws one value and reports whether it falls below `chance` (per-myriad).
pub fn roll_succeeds(rng: &mut GameplayRng, chance: u32) -> (r: bool)
    ensures
        r == roll_hits(output(old(rng).spec_state()), chance as nat),
        final(rng).spec_state() == next_state(old(rng).spec_state()),
{
    let value = rng.next_u64();
    let top = value >> 11u64;
    proof {
        assert(top <= 0x1f_ffff_ffff_ffff) by (bit_vector)
            requires
                top == value >> 11u64,
        ;
    }
    (top as u128) * (MYRIAD as u128) < (chance as u128) * 0x20_0000_0000_0000u128
}

/// An escape attempt: a boss blocks it without a roll, a certain chance succeeds without a
/// roll, and otherwise one roll decides.
pub fn roll_flee(boss: bool, chance: u32, rng: &mut GameplayRng) -> (r: FleeOutcome)
    ensures
        boss ==> r == FleeOutcome::Blocked && *final(rng) == *old(rng),
        !boss && chance >= MYRIAD ==> r == FleeOutcome::Success && *final(rng) == *old(rng),
        !boss && chance < MYRIAD ==> final(rng).spec_state() == next_state(old(rng).spec_state())
            && r == if roll_hits(output(old(rng).spec_state()), chance as nat) {
            FleeOutcome::Success
        } else {
            FleeOutcome::Failed
        },
{
    if boss {
        FleeOutcome::Blocked
    } else if chance >= MYRIAD || roll_succeeds(rng, chance) {
        FleeOutcome::Success
    } else {
        FleeOutcome::Failed
    }
}

/// After the player acknowledges an escape attempt: a success leaves the battle; a failed or
/// blocked attempt spends the turn.
pub fn phase_after_flee_confirmation(outcome: FleeOutcome) -> (r: Option<BattlePhase>)
    ensures
        r == match outcome {
            FleeOutcome::Success => None,
            _ => Some(BattlePhase::Advance),
        },
{
    match outcome {
        FleeOutcome::Success => None,
        FleeOutcome::Failed | FleeOutcome::Blocked => Some(BattlePhase::Advance),
    }
}

/// The summed non-negative dexterity of every party rogue.
pub open spec fn rogue_dexterity(cs: Seq<BattleCombatant>) -> nat
    decreases cs.len(),
{
    if cs.len() == 0 {
        0
    } else {
        let rest = rogue_dexterity(cs.drop_last());
        let c = cs.last();
        if c.key.side == BattleSide::Party && c.class_id@ == "rogue"@ && c.dexterity > 0 {
            rest + c.dexterity as nat
        } else {
            rest
        }
    }
}

/// The escape chance (per-myriad): the base chance plus the rogue bonus for each point of
/// party rogue dexterity, at most certain.
pub open spec fn spec_flee_chance(cs: Seq<BattleCombatant>, balance: BalanceData) -> nat {
    let raw = balance.battle.flee_base_chance.value() + rogue_dexterity(cs)
        * balance.battle.flee_rogue_dex_bonus.value();
    if raw > MYRIAD {
        MYRIAD as nat
    } else {
        raw
    }
}

/// The escape chance (per-myriad) for a party.
pub fn flee_chance(state: &crate::battle::model::BattleState, balance: &BalanceData) -> (r: u32)
    ensures
        r == spec_flee_chance(state.combatants@, *balance),
{
    let combatants = &state.combatants;
    let base = balance.battle.flee_base_chance.get() as u128;
    let bonus = balance.battle.flee_rogue_dex_bonus.get() as u128;
    let n = combatants.len();
    let mut dex: u128 = 0;
    let mut capped = false;
    let mut i: usize = 0;
    while i < n
        invariant
            n == combatants@.len(),
            0 <= i <= n,
            !capped ==> dex == rogue_dexterity(combatants@.subrange(0, i as int)),
            !capped ==> dex <= MYRIAD,
            capped ==> rogue_dexterity(combatants@.subrange(0, i as int)) > MYRIAD,
        decreases n - i,
    {
        let ghost prefix = combatants@.subrange(0, i + 1);
        assert(prefix.drop_last() == combatants@.subrange(0, i as int));
        let actor = &combatants[i];
        if actor.key.side == BattleSide::Party && str_equals(actor.class_id.as_str(), "rogue") && actor.dexterity > 0 {
            if !capped {
                dex = dex + actor.dexterity as u128;
                if dex > MYRIAD as u128 {
                    capped = true;
                }
            }
        }
        i = i + 1;
    }
    assert(combatants@.subrange(0, n as int) == combatants@);
    if capped {
        proof {
            let d = rogue_dexterity(combatants@);
            if bonus > 0 {
                assert(d * bonus >= d) by (nonlinear_arith) requires bonus >= 1;
            }
        }
        if bonus == 0 {
            proof {
                let d = rogue_dexterity(combatants@);
                assert(d * bonus == 0) by (nonlinear_arith) requires bonus == 0;
            }
            return base as u32;
        }
        return MYRIAD;
    }
    proof {
        assert(dex * bonus <= MYRIAD * MYRIAD) by (nonlinear_arith) requires dex <= MYRIAD, bonus <= MYRIAD;
    }
    let raw = base + dex * bonus;
    if raw > MYRIAD as u128 {
        MYRIAD
    } else {
        raw as u32
    }
}

/// Wraps `index + movement` into `0..length`, the way menus and target pickers cycle.
pub fn wrap_index(index: usize, movement: isize, length: usize) -> (r: usize)
    requires
        length > 0,
    ensures
        r < length,
        r as int == (index as int + movement as int) % (length as int),
{
    let l = length as i128;
    let x = index as i128 + movement as i128;
    let m = x % l;
    let v = if m < 0 { m + l } else { m };
    proof {
        let xi = x as int;
        let li = l as int;
        assert(xi == index as int + movement as int);
        vstd::arithmetic::div_mod::lemma_fundamental_div_mod(xi, li);
        if xi >= 0 {
            assert(m as int == xi % li);
        } else {
            let q = (-xi) / li;
            let rr = (-xi) % li;
            assert(-xi == q * li + rr) by {
                vstd::arithmetic::div_mod::lemma_fundamental_div_mod(-xi, li);
            }
            assert(m as int == -rr);
            if rr == 0 {
                assert(xi == (-q) * li) by (nonlinear_arith) requires -xi == q * li + rr, rr == 0;
                vstd::arithmetic::div_mod::lemma_mod_multiples_basic(-q, li);
            } else {
                assert(xi == (-q - 1) * li + (li - rr)) by (nonlinear_arith) requires -xi == q * li + rr;
                vstd::arithmetic::div_mod::lemma_mod_multiples_vanish(-q - 1, li - rr, li);
                vstd::arithmetic::div_mod::lemma_small_mod((li - rr) as nat, li as nat);
            }
        }
    }
    v as usize
}

} // verus!
