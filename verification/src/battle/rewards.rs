//! Experience, loot, and the victory summary.

use vstd::prelude::*;

use crate::battle::model::{eligible_keys, eligible_on, collect_eligible, BattleCombatant, BattleSide, BattleState, CombatantKey};
use crate::gameplay_rng::{next_state, output, GameplayRng};
use crate::scenario_enemy::{EnemyDrops, EnemyLootEntry, EnemyLootPool};
use crate::scenario_recipe::MagicCoreSize;
use crate::scenario_validation_baseline::{line_in_order, line_le};
use crate::text::{
    char_uppercase, decimal, decimal_string, index_of_char, lemma_index_of_char_at, lemma_index_of_char_bounds,
    str_equals, uppercase_of, concat3,
};

verus! {

/// One level gained: the level range and what each stat gained, with the totals after it.
#[derive(Clone, Copy, Debug, PartialEq, Eq, Structural)]
pub struct RuntimeLevelUp {
    pub old_level: u32,
    pub new_level: u32,
    pub health: u32,
    pub mana: u32,
    pub strength: u32,
    pub dexterity: u32,
    pub constitution: u32,
    pub intelligence: u32,
    pub max_health: u32,
    pub max_mana: u32,
    pub total_strength: u32,
    pub total_dexterity: u32,
    pub total_constitution: u32,
    pub total_intelligence: u32,
}

/// What one party member earned.
#[derive(Clone, Debug, PartialEq, Eq)]
pub struct MemberReward {
    pub member_id: String,
    pub member_name: String,
    pub experience_gained: u32,
    pub experience_applied: u32,
    pub level_ups: Vec<RuntimeLevelUp>,
    pub learned_abilities: Vec<String>,
}

/// One item stack of the haul.
#[derive(Clone, Debug, PartialEq, Eq)]
pub struct LootReward {
    pub item_id: String,
    pub name: String,
    pub quantity: u32,
    pub magic_core: bool,
}

/// Everything a victory awards.
#[derive(Clone, Debug, PartialEq, Eq)]
pub struct BattleRewards {
    pub total_experience: u32,
    pub gp_gained: u32,
    pub members: Vec<MemberReward>,
    pub loot: Vec<LootReward>,
    pub boss_flag: Option<String>,
}

/// Why rewards could not be applied.
#[derive(Clone, Debug, PartialEq, Eq)]
pub enum RewardError {
    AlreadyApplied,
    MissingPartyMember(String),
    MissingClass(String),
}

/// What a reward error says.
pub open spec fn reward_error_text(e: RewardError) -> Seq<char> {
    match e {
        RewardError::AlreadyApplied => "battle rewards were already applied"@,
        RewardError::MissingPartyMember(id) => "reward party member `"@ + id@ + "` is missing"@,
        RewardError::MissingClass(id) => "reward class `"@ + id@ + "` is missing"@,
    }
}

impl RewardError {
    /// What the error says.
    pub fn describe(&self) -> (r: String)
        ensures
            r@ == reward_error_text(*self),
    {
        match self {
            RewardError::AlreadyApplied => "battle rewards were already applied".to_owned(),
            RewardError::MissingPartyMember(id) => concat3("reward party member `", id.as_str(), "` is missing"),
            RewardError::MissingClass(id) => concat3("reward class `", id.as_str(), "` is missing"),
        }
    }
}

/// `a + b`, saturated to `u32`.
pub open spec fn sat_add(a: nat, b: nat) -> nat {
    if a + b > u32::MAX {
        u32::MAX as nat
    } else {
        a + b
    }
}

/// The item id of a magic core of `size`.
pub open spec fn core_id(size: MagicCoreSize) -> Seq<char> {
    match size {
        MagicCoreSize::XS => "mc_xs"@,
        MagicCoreSize::S => "mc_s"@,
        MagicCoreSize::M => "mc_m"@,
        MagicCoreSize::L => "mc_l"@,
        MagicCoreSize::XL => "mc_xl"@,
    }
}

/// The item id of a magic core of `size`.
pub fn magic_core_id(size: MagicCoreSize) -> (r: &'static str)
    ensures
        r@ == core_id(size),
{
    match size {
        MagicCoreSize::XS => "mc_xs",
        MagicCoreSize::S => "mc_s",
        MagicCoreSize::M => "mc_m",
        MagicCoreSize::L => "mc_l",
        MagicCoreSize::XL => "mc_xl",
    }
}

/// The display name of a magic core id.
pub open spec fn core_name(id: Seq<char>) -> Seq<char> {
    if id == "mc_xs"@ {
        "Magic Core (XS)"@
    } else if id == "mc_s"@ {
        "Magic Core (S)"@
    } else if id == "mc_m"@ {
        "Magic Core (M)"@
    } else if id == "mc_l"@ {
        "Magic Core (L)"@
    } else if id == "mc_xl"@ {
        "Magic Core (XL)"@
    } else {
        "Magic Core"@
    }
}

/// The display name of a magic core id.
pub fn magic_core_name(id: &str) -> (r: &'static str)
    ensures
        r@ == core_name(id@),
{
    if str_equals(id, "mc_xs") {
        "Magic Core (XS)"
    } else if str_equals(id, "mc_s") {
        "Magic Core (S)"
    } else if str_equals(id, "mc_m") {
        "Magic Core (M)"
    } else if str_equals(id, "mc_l") {
        "Magic Core (L)"
    } else if str_equals(id, "mc_xl") {
        "Magic Core (XL)"
    } else {
        "Magic Core"
    }
}

/// A word with its first character uppercased.
pub open spec fn capitalized(part: Seq<char>) -> Seq<char> {
    if part.len() == 0 {
        part
    } else {
        char_uppercase(part[0]) + part.drop_first()
    }
}

/// An item id as a display name: its `_`-separated words capitalized and joined by spaces.
pub open spec fn display_name(id: Seq<char>) -> Seq<char>
    decreases id.len(),
{
    let i = index_of_char(id, '_');
    if i >= id.len() {
        capitalized(id)
    } else {
        proof {
            lemma_index_of_char_bounds(id, '_');
        }
        capitalized(id.take(i)) + " "@ + display_name(id.skip(i + 1))
    }
}

/// An item id as a display name.
pub fn display_item_name(id: &str) -> (r: String)
    ensures
        r@ == display_name(id@),
{
    let n = id.unicode_len();
    let ghost s = id@;
    let mut out = String::new();
    let mut p: usize = 0;
    let mut more = true;
    proof {
        assert(s.skip(0) =~= s);
    }
    while more
        invariant
            n == s.len(),
            s == id@,
            p <= n,
            more ==> out@ + display_name(s.skip(p as int)) == display_name(s),
            !more ==> out@ == display_name(s),
        decreases n - p + (if more {
            1int
        } else {
            0int
        }),
    {
        let mut j: usize = p;
        while j < n && id.get_char(j) != '_'
            invariant
                n == s.len(),
                s == id@,
                p <= j <= n,
                forall|k: int| p <= k < j ==> s[k] != '_',
            decreases n - j,
        {
            j = j + 1;
        }
        let ghost rest = s.skip(p as int);
        let ghost before = out@;
        proof {
            lemma_index_of_char_at(rest, '_', j - p);
            assert(rest.take(j - p) =~= s.subrange(p as int, j as int));
        }
        if j > p {
            let first = id.get_char(p);
            let upper = uppercase_of(first);
            out.append(upper.as_str());
            let tail = id.substring_char(p + 1, j);
            out.append(tail);
            proof {
                assert(s.subrange(p as int, j as int).drop_first() =~= s.subrange(p + 1, j as int));
            }
        }
        proof {
            assert(out@ =~= before + capitalized(s.subrange(p as int, j as int)));
        }
        if j < n {
            out.append(" ");
            proof {
                assert(rest.skip(j - p + 1) =~= s.skip(j + 1));
            }
            p = j + 1;
        } else {
            more = false;
            p = n;
        }
    }
    out
}

/// The total weight of a loot pool.
pub open spec fn pool_weight(pool: Seq<EnemyLootEntry>) -> nat
    decreases pool.len(),
{
    if pool.len() == 0 {
        0
    } else {
        pool_weight(pool.drop_last()) + pool.last().weight.value()
    }
}

/// The entry a roll of `roll` (below the pool's weight) lands on, searching from `i`: the
/// first whose cumulative weight exceeds the roll.
pub open spec fn pick_from(pool: Seq<EnemyLootEntry>, roll: nat, i: int) -> Option<int>
    decreases pool.len() - i,
{
    if i >= pool.len() || i < 0 {
        None
    } else if roll < pool[i].weight.value() {
        Some(i)
    } else {
        pick_from(pool, (roll - pool[i].weight.value()) as nat, i + 1)
    }
}

/// The entry a draw from state `s` picks from a pool, and the state after: no draw for an
/// empty pool; otherwise one draw, reduced modulo the total weight.
pub open spec fn loot_pick(pool: Seq<EnemyLootEntry>, s: u64) -> (Option<int>, u64) {
    if pool_weight(pool) == 0 {
        (None, s)
    } else {
        (pick_from(pool, (output(s) as nat) % pool_weight(pool), 0), next_state(s))
    }
}

proof fn lemma_pool_weight_prefix(pool: Seq<EnemyLootEntry>, n: int)
    requires
        0 <= n <= pool.len(),
    ensures
        pool_weight(pool.take(n)) <= pool_weight(pool),
    decreases pool.len() - n,
{
    if n < pool.len() {
        lemma_pool_weight_prefix(pool, n + 1);
        assert(pool.take(n + 1).drop_last() =~= pool.take(n));
    } else {
        assert(pool.take(n) =~= pool);
    }
}

proof fn lemma_pick_from_step(pool: Seq<EnemyLootEntry>, roll: nat, i: int)
    requires
        0 <= i < pool.len(),
        roll >= pool[i].weight.value(),
    ensures
        pick_from(pool, roll, i) == pick_from(pool, (roll - pool[i].weight.value()) as nat, i + 1),
{
}

/// Draws one entry from a weighted pool; an empty pool draws nothing.
pub fn pick_loot<'a>(pool: &'a Vec<EnemyLootEntry>, rng: &mut GameplayRng) -> (r: Option<&'a EnemyLootEntry>)
    requires
        pool_weight(pool@) <= u64::MAX,
    ensures
        ({
            let (pick, after) = loot_pick(pool@, old(rng).spec_state());
            &&& final(rng).spec_state() == after
            &&& match pick {
                Some(k) => 0 <= k < pool@.len() && r == Some(&pool@[k]),
                None => r is None,
            }
        }),
{
    let n = pool.len();
    let mut total: u64 = 0;
    let mut i: usize = 0;
    while i < n
        invariant
            n == pool@.len(),
            i <= n,
            total == pool_weight(pool@.take(i as int)),
            pool_weight(pool@) <= u64::MAX,
        decreases n - i,
    {
        proof {
            assert(pool@.take(i + 1).drop_last() =~= pool@.take(i as int));
            lemma_pool_weight_prefix(pool@, i + 1);
        }
        total = total + pool[i].weight.get() as u64;
        i = i + 1;
    }
    assert(pool@.take(n as int) =~= pool@);
    if total == 0 {
        return None;
    }
    let drawn = rng.next_u64();
    let mut roll = drawn % total;
    assert(roll as nat == (output(old(rng).spec_state()) as nat) % pool_weight(pool@));
    let ghost start = roll as nat;
    let ghost after = rng.spec_state();
    let mut k: usize = 0;
    while k < n
        invariant
            n == pool@.len(),
            k <= n,
            rng.spec_state() == after,
            after == next_state(old(rng).spec_state()),
            total == pool_weight(pool@),
            total > 0,
            start == (output(old(rng).spec_state()) as nat) % pool_weight(pool@),
            pick_from(pool@, start, 0) == pick_from(pool@, roll as nat, k as int),
        decreases n - k,
    {
        let weight = pool[k].weight.get() as u64;
        if roll < weight {
            assert(pick_from(pool@, roll as nat, k as int) == Some(k as int));
            return Some(&pool[k]);
        }
        proof {
            lemma_pick_from_step(pool@, roll as nat, k as int);
        }
        roll = roll - weight;
        k = k + 1;
    }
    assert(pick_from(pool@, roll as nat, n as int) is None);
    None
}

/// One contribution to the haul: an item id, a quantity, and whether it is a magic core.
pub type Contribution = (Seq<char>, nat, bool);

/// What the first `n` loot pools of an enemy contribute, drawing from state `s`, and the
/// state after.
pub open spec fn pool_contributions(pools: Seq<EnemyLootPool>, n: int, s: u64) -> (Seq<Contribution>, u64)
    decreases n,
{
    if n <= 0 {
        (seq![], s)
    } else {
        let (before, s1) = pool_contributions(pools, n - 1, s);
        let pool = pools[n - 1].pool@;
        let (pick, s2) = loot_pick(pool, s1);
        match pick {
            Some(k) => (before.push((pool[k].item@, 1, false)), s2),
            None => (before, s2),
        }
    }
}

/// What one enemy's drops contribute: every magic core, then one draw per loot pool.
pub open spec fn drop_contributions(drops: EnemyDrops, s: u64) -> (Seq<Contribution>, u64) {
    let cores = drops.mc@.map_values(|c: crate::scenario_enemy::MagicCoreDrop| (core_id(c.size), c.qty.value(), true));
    let (pooled, after) = pool_contributions(drops.loot@, drops.loot@.len() as int, s);
    (cores + pooled, after)
}

/// What the first `n` combatants contribute: the drops of each enemy, in order.
pub open spec fn battle_contributions(cs: Seq<BattleCombatant>, n: int, s: u64) -> (Seq<Contribution>, u64)
    decreases n,
{
    if n <= 0 {
        (seq![], s)
    } else {
        let (before, s1) = battle_contributions(cs, n - 1, s);
        let c = cs[n - 1];
        if c.key.side == BattleSide::Enemy && c.drops is Some {
            let (mine, s2) = drop_contributions(c.drops.unwrap(), s1);
            (before + mine, s2)
        } else {
            (before, s1)
        }
    }
}

/// Where a new id goes in a list kept in id order: before the first id ordered after it.
pub open spec fn insert_position(list: Seq<Contribution>, id: Seq<char>) -> int
    decreases list.len(),
{
    if list.len() == 0 || !line_le(list[0].0, id) {
        0
    } else {
        1 + insert_position(list.drop_first(), id)
    }
}

/// The first position holding `id`, or `-1`.
pub open spec fn position_of(list: Seq<Contribution>, id: Seq<char>) -> int
    decreases list.len(),
{
    if list.len() == 0 {
        -1
    } else if list[0].0 == id {
        0
    } else {
        let rest = position_of(list.drop_first(), id);
        if rest < 0 {
            -1
        } else {
            1 + rest
        }
    }
}

/// Adds one contribution to the totals: onto an existing stack of the same id (saturating),
/// or as a new stack in id order.
pub open spec fn merge_one(list: Seq<Contribution>, c: Contribution) -> Seq<Contribution> {
    let k = position_of(list, c.0);
    if k >= 0 {
        list.update(k, (c.0, sat_add(list[k].1, c.1), list[k].2))
    } else {
        list.insert(insert_position(list, c.0), c)
    }
}

/// The totals of a sequence of contributions.
pub open spec fn merged(cs: Seq<Contribution>) -> Seq<Contribution>
    decreases cs.len(),
{
    if cs.len() == 0 {
        seq![]
    } else {
        merge_one(merged(cs.drop_last()), cs.last())
    }
}

/// The view of running totals.
pub open spec fn totals_view(v: Seq<(String, u32, bool)>) -> Seq<Contribution> {
    v.map_values(|t: (String, u32, bool)| (t.0@, t.1 as nat, t.2))
}

/// Whether some contribution of `cs` is of `id`.
pub open spec fn has_id(cs: Seq<Contribution>, id: Seq<char>) -> bool {
    exists|i: int| 0 <= i < cs.len() && #[trigger] cs[i].0 == id
}

/// The quantities of all contributions of `id` in `cs`, added up and saturated to `u32`.
pub open spec fn id_total(cs: Seq<Contribution>, id: Seq<char>) -> nat
    decreases cs.len(),
{
    if cs.len() == 0 {
        0
    } else if cs.last().0 == id {
        sat_add(id_total(cs.drop_last(), id), cs.last().1)
    } else {
        id_total(cs.drop_last(), id)
    }
}

proof fn lemma_id_total_absent(cs: Seq<Contribution>, id: Seq<char>)
    requires
        !has_id(cs, id),
    ensures
        id_total(cs, id) == 0,
    decreases cs.len(),
{
    if cs.len() > 0 {
        assert(cs.last() == cs[cs.len() - 1]);
        assert(!has_id(cs.drop_last(), id)) by {
            if has_id(cs.drop_last(), id) {
                let i = choose|i: int| 0 <= i < cs.drop_last().len() && #[trigger] cs.drop_last()[i].0 == id;
                assert(cs[i] == cs.drop_last()[i]);
            }
        }
        lemma_id_total_absent(cs.drop_last(), id);
    }
}

proof fn lemma_insert_position_bounds(list: Seq<Contribution>, id: Seq<char>)
    ensures
        0 <= insert_position(list, id) <= list.len(),
    decreases list.len(),
{
    if list.len() > 0 && line_le(list[0].0, id) {
        lemma_insert_position_bounds(list.drop_first(), id);
    }
}

/// Loot merges by id and loses nothing: the haul holds one stack per id that any contribution
/// has, and no other; and each stack's quantity is the saturated sum of the quantities of all
/// contributions of its id.
pub proof fn lemma_loot_merge_sums_by_id(cs: Seq<Contribution>)
    requires
        forall|i: int| 0 <= i < cs.len() ==> (#[trigger] cs[i]).1 <= u32::MAX,
    ensures
        forall|a: int, b: int|
            0 <= a < b < merged(cs).len() ==> (#[trigger] merged(cs)[a]).0 != (#[trigger] merged(cs)[b]).0,
        forall|k: int|
            0 <= k < merged(cs).len() ==> has_id(cs, (#[trigger] merged(cs)[k]).0) && merged(cs)[k].1
                == id_total(cs, merged(cs)[k].0),
        forall|id: Seq<char>| #[trigger] has_id(cs, id) ==> exists|k: int| 0 <= k < merged(cs).len() && merged(cs)[k].0 == id,
    decreases cs.len(),
{
    if cs.len() > 0 {
        let prefix = cs.drop_last();
        let c = cs.last();
        assert(c == cs[cs.len() - 1]);
        assert forall|i: int| 0 <= i < prefix.len() implies (#[trigger] prefix[i]).1 <= u32::MAX by {
            assert(prefix[i] == cs[i]);
        }
        lemma_loot_merge_sums_by_id(prefix);
        let m = merged(prefix);
        let r = merged(cs);
        assert(r == merge_one(m, c));
        lemma_position_of_bounds(m, c.0);
        let p = position_of(m, c.0);
        assert forall|id: Seq<char>| has_id(prefix, id) implies has_id(cs, id) by {
            let i = choose|i: int| 0 <= i < prefix.len() && #[trigger] prefix[i].0 == id;
            assert(cs[i] == prefix[i]);
        }
        assert(has_id(cs, c.0)) by {
            assert(cs[cs.len() - 1].0 == c.0);
        }
        assert forall|id: Seq<char>| id != c.0 implies id_total(cs, id) == id_total(prefix, id) by {}
        assert forall|id: Seq<char>| #[trigger] has_id(cs, id) && id != c.0 implies has_id(prefix, id) by {
            let i = choose|i: int| 0 <= i < cs.len() && #[trigger] cs[i].0 == id;
            assert(i < cs.len() - 1);
            assert(prefix[i] == cs[i]);
        }
        if p >= 0 {
            assert(r == m.update(p, (c.0, sat_add(m[p].1, c.1), m[p].2)));
            assert forall|k: int|
                0 <= k < r.len() implies has_id(cs, (#[trigger] r[k]).0) && r[k].1 == id_total(cs, r[k].0) by {
                if k != p {
                    assert(r[k] == m[k]);
                    assert(m[k].0 != c.0);
                }
            }
            assert forall|a: int, b: int| 0 <= a < b < r.len() implies (#[trigger] r[a]).0 != (#[trigger] r[b]).0 by {
                assert(r[a].0 == m[a].0 && r[b].0 == m[b].0);
            }
            assert forall|id: Seq<char>| #[trigger] has_id(cs, id) implies exists|k: int|
                0 <= k < r.len() && r[k].0 == id by {
                if id == c.0 {
                    assert(r[p].0 == id);
                } else {
                    let k = choose|k: int| 0 <= k < m.len() && m[k].0 == id;
                    assert(r[k].0 == id);
                }
            }
        } else {
            let q = insert_position(m, c.0);
            lemma_insert_position_bounds(m, c.0);
            assert(r == m.insert(q, c));
            assert(!has_id(prefix, c.0)) by {
                if has_id(prefix, c.0) {
                    let k = choose|k: int| 0 <= k < m.len() && m[k].0 == c.0;
                }
            }
            lemma_id_total_absent(prefix, c.0);
            assert forall|k: int|
                0 <= k < r.len() implies has_id(cs, (#[trigger] r[k]).0) && r[k].1 == id_total(cs, r[k].0) by {
                if k < q {
                    assert(r[k] == m[k]);
                } else if k > q {
                    assert(r[k] == m[k - 1]);
                } else {
                    assert(r[k] == c);
                }
            }
            assert forall|a: int, b: int| 0 <= a < b < r.len() implies (#[trigger] r[a]).0 != (#[trigger] r[b]).0 by {
                let aa = if a < q { a } else if a == q { -1 } else { a - 1 };
                let bb = if b < q { b } else if b == q { -1 } else { b - 1 };
                if aa >= 0 {
                    assert(r[a] == m[aa]);
                }
                if bb >= 0 {
                    assert(r[b] == m[bb]);
                }
            }
            assert forall|id: Seq<char>| #[trigger] has_id(cs, id) implies exists|k: int|
                0 <= k < r.len() && r[k].0 == id by {
                if id == c.0 {
                    assert(r[q].0 == id);
                } else {
                    let k = choose|k: int| 0 <= k < m.len() && m[k].0 == id;
                    if k < q {
                        assert(r[k].0 == id);
                    } else {
                        assert(r[k + 1].0 == id);
                    }
                }
            }
        }
    }
}

proof fn lemma_position_of_bounds(list: Seq<Contribution>, id: Seq<char>)
    ensures
        -1 <= position_of(list, id) < list.len(),
        position_of(list, id) >= 0 ==> list[position_of(list, id)].0 == id,
        position_of(list, id) < 0 ==> forall|k: int| 0 <= k < list.len() ==> list[k].0 != id,
    decreases list.len(),
{
    if list.len() > 0 && list[0].0 != id {
        lemma_position_of_bounds(list.drop_first(), id);
        if position_of(list.drop_first(), id) < 0 {
            assert forall|k: int| 0 <= k < list.len() implies list[k].0 != id by {
                if k > 0 {
                    assert(list[k] == list.drop_first()[k - 1]);
                }
            }
        }
    }
}

proof fn lemma_position_of_at(list: Seq<Contribution>, id: Seq<char>, j: int)
    requires
        0 <= j < list.len(),
        list[j].0 == id,
        forall|k: int| 0 <= k < j ==> list[k].0 != id,
    ensures
        position_of(list, id) == j,
    decreases j,
{
    if j > 0 {
        lemma_position_of_at(list.drop_first(), id, j - 1);
    }
}

proof fn lemma_insert_position_at(list: Seq<Contribution>, id: Seq<char>, j: int)
    requires
        0 <= j <= list.len(),
        forall|k: int| 0 <= k < j ==> line_le(list[k].0, id),
        j == list.len() || !line_le(list[j].0, id),
    ensures
        insert_position(list, id) == j,
    decreases j,
{
    if j > 0 {
        lemma_insert_position_at(list.drop_first(), id, j - 1);
    }
}

/// Adds one contribution to the running totals.
fn add_contribution(totals: &mut Vec<(String, u32, bool)>, id: &str, quantity: u32, core: bool)
    ensures
        totals_view(final(totals)@) == merge_one(totals_view(old(totals)@), (id@, quantity as nat, core)),
{
    let ghost v = totals_view(totals@);
    let n = totals.len();
    let mut k: usize = 0;
    let mut found = false;
    while k < n && !found
        invariant
            n == totals@.len(),
            v == totals_view(totals@),
            k <= n,
            found ==> k < n && v[k as int].0 == id@,
            forall|q: int| 0 <= q < k ==> v[q].0 != id@,
        decreases n - k, (if found { 0int } else { 1int }),
    {
        if str_equals(totals[k].0.as_str(), id) {
            found = true;
        } else {
            k = k + 1;
        }
    }
    if found {
        proof {
            lemma_position_of_at(v, id@, k as int);
        }
        let (name, held, flag) = totals.remove(k);
        let sum = held.saturating_add(quantity);
        totals.insert(k, (name, sum, flag));
        proof {
            assert(totals_view(totals@) =~= v.update(k as int, (id@, sat_add(v[k as int].1, quantity as nat), v[k as int].2)));
        }
    } else {
        proof {
            lemma_position_of_bounds(v, id@);
            if position_of(v, id@) >= 0 {
                assert(v[position_of(v, id@)].0 == id@);
            }
        }
        let mut p: usize = 0;
        while p < n && line_in_order(totals[p].0.as_str(), id)
            invariant
                n == totals@.len(),
                v == totals_view(totals@),
                p <= n,
                forall|q: int| 0 <= q < p ==> line_le(v[q].0, id@),
            decreases n - p,
        {
            p = p + 1;
        }
        proof {
            lemma_insert_position_at(v, id@, p as int);
        }
        totals.insert(p, (id.to_owned(), quantity, core));
        proof {
            assert(totals_view(totals@) =~= v.insert(p as int, (id@, quantity as nat, core)));
        }
    }
}

/// Whether every loot pool of `drops` weighs no more than `u64` holds.
pub open spec fn pools_bounded(drops: EnemyDrops) -> bool {
    forall|k: int| 0 <= k < drops.loot@.len() ==> pool_weight(#[trigger] drops.loot@[k].pool@) <= u64::MAX
}

/// Whether every enemy's loot pools are within bounds.
pub open spec fn loot_bounded(cs: Seq<BattleCombatant>) -> bool {
    forall|i: int| 0 <= i < cs.len() && (#[trigger] cs[i]).drops is Some ==> pools_bounded(cs[i].drops.unwrap())
}

/// The haul of a battle: every defeated enemy's magic cores and one draw from each of its
/// loot pools, merged by item id (quantities saturating) and listed in id order; cores are
/// named by size and other items by their id.
pub open spec fn loot_view(l: Seq<LootReward>) -> Seq<Contribution> {
    l.map_values(|r: LootReward| (r.item_id@, r.quantity as nat, r.magic_core))
}

/// Whether a stack carries the display name its kind calls for.
pub open spec fn named(r: LootReward) -> bool {
    r.name@ == if r.magic_core {
        core_name(r.item_id@)
    } else {
        display_name(r.item_id@)
    }
}

/// The haul of a battle, drawing loot from `rng`.
pub fn calculate_loot(state: &BattleState, rng: &mut GameplayRng) -> (r: Vec<LootReward>)
    requires
        loot_bounded(state.combatants@),
    ensures
        ({
            let (contributions, after) = battle_contributions(
                state.combatants@,
                state.combatants@.len() as int,
                old(rng).spec_state(),
            );
            &&& loot_view(r@) == merged(contributions)
            &&& final(rng).spec_state() == after
        }),
        forall|k: int| 0 <= k < r@.len() ==> named(#[trigger] r@[k]),
{
    let ghost s0 = rng.spec_state();
    let ghost cs = state.combatants@;
    let n = state.combatants.len();
    let mut totals: Vec<(String, u32, bool)> = Vec::new();
    let mut i: usize = 0;
    while i < n
        invariant
            n == cs.len(),
            cs == state.combatants@,
            i <= n,
            loot_bounded(cs),
            totals_view(totals@) == merged(battle_contributions(cs, i as int, s0).0),
            rng.spec_state() == battle_contributions(cs, i as int, s0).1,
        decreases n - i,
    {
        let enemy = &state.combatants[i];
        if enemy.key.side == BattleSide::Enemy {
            if let Some(drops) = &enemy.drops {
                let ghost start = battle_contributions(cs, i as int, s0);
                let ghost base = start.0;
                let mut c: usize = 0;
                while c < drops.mc.len()
                    invariant
                        c <= drops.mc@.len(),
                        totals_view(totals@) == merged(base + drops.mc@.take(c as int).map_values(|m: crate::scenario_enemy::MagicCoreDrop| (core_id(m.size), m.qty.value(), true))),
                    decreases drops.mc.len() - c,
                {
                    let core = drops.mc[c];
                    add_contribution(&mut totals, magic_core_id(core.size), core.qty.get(), true);
                    proof {
                        let f = |m: crate::scenario_enemy::MagicCoreDrop| (core_id(m.size), m.qty.value(), true);
                        let prev = base + drops.mc@.take(c as int).map_values(f);
                        assert(base + drops.mc@.take(c + 1).map_values(f) =~= prev.push(f(core)));
                        assert(prev.push(f(core)).drop_last() =~= prev);
                    }
                    c = c + 1;
                }
                let ghost cores = drops.mc@.map_values(|m: crate::scenario_enemy::MagicCoreDrop| (core_id(m.size), m.qty.value(), true));
                proof {
                    assert(drops.mc@.take(drops.mc@.len() as int) =~= drops.mc@);
                }
                let mut l: usize = 0;
                while l < drops.loot.len()
                    invariant
                        l <= drops.loot@.len(),
                        pools_bounded(*drops),
                        totals_view(totals@) == merged(base + cores + pool_contributions(drops.loot@, l as int, start.1).0),
                        rng.spec_state() == pool_contributions(drops.loot@, l as int, start.1).1,
                    decreases drops.loot.len() - l,
                {
                    let pool = &drops.loot[l].pool;
                    proof {
                        assert(pool_weight(drops.loot@[l as int].pool@) <= u64::MAX);
                    }
                    match pick_loot(pool, rng) {
                        Some(entry) => {
                            add_contribution(&mut totals, entry.item.as_str(), 1, false);
                            proof {
                                let prev = pool_contributions(drops.loot@, l as int, start.1).0;
                                assert(base + cores + pool_contributions(drops.loot@, l + 1, start.1).0 =~= (base + cores + prev).push((entry.item@, 1, false)));
                                assert((base + cores + prev).push((entry.item@, 1, false)).drop_last() =~= base + cores + prev);
                            }
                        },
                        None => {
                            proof {
                                assert(pool_contributions(drops.loot@, l + 1, start.1).0 == pool_contributions(drops.loot@, l as int, start.1).0);
                            }
                        },
                    }
                    l = l + 1;
                }
                proof {
                    assert(base + cores + pool_contributions(drops.loot@, drops.loot@.len() as int, start.1).0 =~= base + drop_contributions(*drops, start.1).0);
                }
            }
        }
        i = i + 1;
    }
    let mut loot: Vec<LootReward> = Vec::new();
    let mut k: usize = 0;
    while k < totals.len()
        invariant
            k <= totals@.len(),
            loot_view(loot@) == totals_view(totals@).take(k as int),
            loot@.len() == k,
            forall|q: int| 0 <= q < loot@.len() ==> named(#[trigger] loot@[q]),
        decreases totals.len() - k,
    {
        let quantity = totals[k].1;
        let core = totals[k].2;
        let name = if core {
            magic_core_name(totals[k].0.as_str()).to_owned()
        } else {
            display_item_name(totals[k].0.as_str())
        };
        let item_id = totals[k].0.clone();
        let ghost before = loot@;
        loot.push(LootReward { item_id, name, quantity, magic_core: core });
        proof {
            assert(loot@ == before.push(loot@[k as int]));
            assert(loot_view(loot@)[k as int] == totals_view(totals@)[k as int]);
        }
        proof {
            assert(loot_view(loot@) =~= totals_view(totals@).take(k + 1));
        }
        k = k + 1;
    }
    assert(totals_view(totals@).take(totals@.len() as int) =~= totals_view(totals@));
    loot
}


/// The experience every enemy yields, summed with saturation in combatant order.
pub open spec fn enemy_experience(cs: Seq<BattleCombatant>) -> nat
    decreases cs.len(),
{
    if cs.len() == 0 {
        0
    } else {
        let rest = enemy_experience(cs.drop_last());
        if cs.last().key.side == BattleSide::Enemy {
            sat_add(rest, cs.last().experience_yield as nat)
        } else {
            rest
        }
    }
}

/// The party's combatants, in combatant order.
pub open spec fn party_of(cs: Seq<BattleCombatant>) -> Seq<BattleCombatant>
    decreases cs.len(),
{
    if cs.len() == 0 {
        seq![]
    } else if cs.last().key.side == BattleSide::Party {
        party_of(cs.drop_last()).push(cs.last())
    } else {
        party_of(cs.drop_last())
    }
}

/// Each living member's even share of `total` among `living` members.
pub open spec fn share_of(total: nat, living: nat) -> nat {
    total / (if living == 0 {
        1
    } else {
        living
    })
}

/// The bonus points left after the even shares.
pub open spec fn remainder_of(total: nat, living: nat) -> nat {
    (total - share_of(total, living) * living) as nat
}

/// The members drawn for one bonus point each: `count` draws, each removing the drawn member
/// (the draw reduced modulo the members left) from the pool, stopping early when the pool is
/// empty; and the state after.
pub open spec fn bonus_picks(pool: Seq<CombatantKey>, count: nat, s: u64) -> (Seq<CombatantKey>, u64)
    decreases count,
{
    if count == 0 || pool.len() == 0 {
        (seq![], s)
    } else {
        let index = ((output(s) as nat) % pool.len()) as int;
        let (rest, after) = bonus_picks(pool.remove(index), (count - 1) as nat, next_state(s));
        (seq![pool[index]] + rest, after)
    }
}

/// What a party member earns: its share and any bonus point when alive, nothing when knocked
/// out.
pub open spec fn earned(c: BattleCombatant, share: nat, bonuses: Seq<CombatantKey>) -> nat {
    if c.alive() {
        share + (if bonuses.contains(c.key) {
            1nat
        } else {
            0nat
        })
    } else {
        0
    }
}

/// Whether `m` is the reward of party member `c`, before it is applied.
pub open spec fn member_reward_of(m: MemberReward, c: BattleCombatant, share: nat, bonuses: Seq<CombatantKey>) -> bool {
    &&& m.member_id@ == c.id@
    &&& m.member_name@ == c.name@
    &&& m.experience_gained == earned(c, share, bonuses)
    &&& m.experience_applied == 0
    &&& m.level_ups@.len() == 0
    &&& m.learned_abilities@.len() == 0
}

proof fn lemma_bonus_picks_bound(pool: Seq<CombatantKey>, count: nat, s: u64)
    ensures
        bonus_picks(pool, count, s).0.len() <= count,
        forall|k: CombatantKey| bonus_picks(pool, count, s).0.contains(k) ==> pool.contains(k),
    decreases count,
{
    if count > 0 && pool.len() > 0 {
        let index = ((output(s) as nat) % pool.len()) as int;
        lemma_bonus_picks_bound(pool.remove(index), (count - 1) as nat, next_state(s));
        let (rest, _) = bonus_picks(pool.remove(index), (count - 1) as nat, next_state(s));
        assert forall|k: CombatantKey| (seq![pool[index]] + rest).contains(k) implies pool.contains(k) by {
            if rest.contains(k) {
                let j = choose|j: int| 0 <= j < rest.len() && rest[j] == k;
                assert(pool.remove(index).contains(k));
                let q = choose|q: int| 0 <= q < pool.remove(index).len() && pool.remove(index)[q] == k;
                if q < index {
                    assert(pool[q] == k);
                } else {
                    assert(pool[q + 1] == k);
                }
            } else {
                assert((seq![pool[index]] + rest)[0] == pool[index]);
                let j = choose|j: int| 0 <= j < (seq![pool[index]] + rest).len() && (seq![pool[index]] + rest)[j] == k;
                if j > 0 {
                    assert(rest[j - 1] == k);
                }
            }
        }
    }
}

/// Whether `key` is among `keys`.
fn holds_key(keys: &Vec<CombatantKey>, key: CombatantKey) -> (r: bool)
    ensures
        r == keys@.contains(key),
{
    let mut i: usize = 0;
    while i < keys.len()
        invariant
            i <= keys@.len(),
            forall|q: int| 0 <= q < i ==> keys@[q] != key,
        decreases keys.len() - i,
    {
        if keys[i] == key {
            return true;
        }
        i = i + 1;
    }
    false
}

/// What a victory awards before it is applied: the enemies' experience, summed with
/// saturation, split evenly among the living party members, with the remainder handed out one
/// point at a time to members drawn from `rng`; knocked-out members earn nothing; then the
/// haul, drawn from `rng` after the bonus draws.
pub fn calculate_rewards(state: &BattleState, rng: &mut GameplayRng) -> (r: BattleRewards)
    requires
        loot_bounded(state.combatants@),
        state.combatants@.len() <= u32::MAX,
    ensures
        ({
            let cs = state.combatants@;
            let total = enemy_experience(cs);
            let living = eligible_keys(cs, BattleSide::Party, false);
            let share = share_of(total, living.len());
            let (bonuses, s1) = bonus_picks(
                living,
                remainder_of(total, living.len()),
                old(rng).spec_state(),
            );
            let party = party_of(cs);
            let (contributions, s2) = battle_contributions(cs, cs.len() as int, s1);
            &&& r.total_experience == total
            &&& r.gp_gained == 0
            &&& r.boss_flag is None
            &&& r.members@.len() == party.len()
            &&& forall|k: int|
                0 <= k < party.len() ==> member_reward_of(#[trigger] r.members@[k], party[k], share, bonuses)
            &&& loot_view(r.loot@) == merged(contributions)
            &&& forall|k: int| 0 <= k < r.loot@.len() ==> named(#[trigger] r.loot@[k])
            &&& final(rng).spec_state() == s2
        }),
{
    let ghost cs = state.combatants@;
    let n = state.combatants.len();
    let mut total: u32 = 0;
    let mut i: usize = 0;
    while i < n
        invariant
            n == cs.len(),
            cs == state.combatants@,
            i <= n,
            total == enemy_experience(cs.take(i as int)),
        decreases n - i,
    {
        proof {
            assert(cs.take(i + 1).drop_last() =~= cs.take(i as int));
        }
        if state.combatants[i].key.side == BattleSide::Enemy {
            total = total.saturating_add(state.combatants[i].experience_yield);
        }
        i = i + 1;
    }
    assert(cs.take(n as int) =~= cs);
    let living = collect_eligible(state.combatants.as_slice(), BattleSide::Party, false);
    proof {
        crate::battle::model::lemma_eligible_keys_len(cs, BattleSide::Party, false);
    }
    let count = living.len() as u32;
    let divisor: u32 = if count == 0 {
        1
    } else {
        count
    };
    let share = total / divisor;
    proof {
        assert(share as nat * count as nat <= total) by (nonlinear_arith)
            requires
                share == total / divisor,
                divisor == (if count == 0 { 1 } else { count }),
        ;
    }
    let remainder: u32 = total - share * count;
    let mut pool = living.clone();
    proof {
        assert(pool@ =~= living@);
    }
    let mut bonuses: Vec<CombatantKey> = Vec::new();
    let ghost s0 = rng.spec_state();
    let mut drawn: u32 = 0;
    proof {
        assert(bonuses@ + bonus_picks(pool@, remainder as nat, s0).0 =~= bonus_picks(living@, remainder as nat, s0).0);
    }
    while drawn < remainder && pool.len() > 0
        invariant
            drawn <= remainder,
            bonuses@ + bonus_picks(pool@, (remainder - drawn) as nat, rng.spec_state()).0
                == bonus_picks(living@, remainder as nat, s0).0,
            bonus_picks(pool@, (remainder - drawn) as nat, rng.spec_state()).1
                == bonus_picks(living@, remainder as nat, s0).1,
        decreases remainder - drawn,
    {
        let ghost s = rng.spec_state();
        let ghost before = bonuses@;
        let ghost p = pool@;
        let value = rng.next_u64();
        let index = (value % pool.len() as u64) as usize;
        let picked = pool.remove(index);
        bonuses.push(picked);
        proof {
            let rest = bonus_picks(p.remove(index as int), (remainder - drawn - 1) as nat, next_state(s));
            assert(bonus_picks(p, (remainder - drawn) as nat, s).0 == seq![p[index as int]] + rest.0);
            assert(bonuses@ + rest.0 =~= before + (seq![p[index as int]] + rest.0));
        }
        drawn = drawn + 1;
    }
    proof {
        assert(bonus_picks(pool@, (remainder - drawn) as nat, rng.spec_state()).0 =~= Seq::<CombatantKey>::empty());
        assert(bonuses@ =~= bonus_picks(living@, remainder as nat, s0).0);
        lemma_bonus_picks_bound(living@, remainder as nat, s0);
    }
    let ghost party = party_of(cs);
    let mut members: Vec<MemberReward> = Vec::new();
    let mut j: usize = 0;
    while j < n
        invariant
            n == cs.len(),
            cs == state.combatants@,
            j <= n,
            party_of(cs.take(j as int)).len() == members@.len(),
            forall|k: int|
                0 <= k < members@.len() ==> member_reward_of(
                    #[trigger] members@[k],
                    party_of(cs.take(j as int))[k],
                    share as nat,
                    bonuses@,
                ),
            share as nat * count as nat <= total,
            total <= u32::MAX,
            remainder == total - share * count,
            bonuses@.len() <= remainder,
            forall|k: CombatantKey| bonuses@.contains(k) ==> living@.contains(k),
            living@.len() == count,
        decreases n - j,
    {
        proof {
            assert(cs.take(j + 1).drop_last() =~= cs.take(j as int));
        }
        let actor = &state.combatants[j];
        if actor.key.side == BattleSide::Party {
            let gained: u32 = if actor.is_alive() {
                if holds_key(&bonuses, actor.key) {
                    proof {
                        assert(count >= 1) by {
                            assert(living@.contains(actor.key));
                        }
                        assert(share + 1 <= total) by (nonlinear_arith)
                            requires
                                share * count + 1 <= total,
                                count >= 1,
                        ;
                    }
                    share + 1
                } else {
                    share
                }
            } else {
                0
            };
            let ghost before = members@;
            members.push(
                MemberReward {
                    member_id: actor.id.clone(),
                    member_name: actor.name.clone(),
                    experience_gained: gained,
                    experience_applied: 0,
                    level_ups: Vec::new(),
                    learned_abilities: Vec::new(),
                },
            );
            proof {
                assert(party_of(cs.take(j + 1)) == party_of(cs.take(j as int)).push(cs[j as int]));
                assert forall|k: int| 0 <= k < members@.len() implies member_reward_of(
                    #[trigger] members@[k],
                    party_of(cs.take(j + 1))[k],
                    share as nat,
                    bonuses@,
                ) by {
                    if k < before.len() {
                        assert(members@[k] == before[k]);
                    }
                }
            }
        } else {
            proof {
                assert(party_of(cs.take(j + 1)) == party_of(cs.take(j as int)));
            }
        }
        j = j + 1;
    }
    assert(cs.take(n as int) =~= cs);
    let loot = calculate_loot(state, rng);
    BattleRewards { total_experience: total, gp_gained: 0, members, loot, boss_flag: None }
}


/// `parts` joined by `sep`.
pub open spec fn joined(parts: Seq<Seq<char>>, sep: Seq<char>) -> Seq<char>
    decreases parts.len(),
{
    if parts.len() == 0 {
        Seq::empty()
    } else if parts.len() == 1 {
        parts[0]
    } else {
        joined(parts.drop_last(), sep) + sep + parts.last()
    }
}

/// Appends `part` to a join in progress that holds `count` parts so far.
pub(crate) fn join_push(out: &mut String, started: bool, part: &str, sep: &str, Ghost(parts): Ghost<Seq<Seq<char>>>)
    requires
        started == (parts.len() > 0),
        old(out)@ == joined(parts, sep@),
    ensures
        final(out)@ == joined(parts.push(part@), sep@),
{
    if started {
        out.append(sep);
    }
    out.append(part);
    proof {
        assert(parts.push(part@).drop_last() =~= parts);
        if !started {
            assert(out@ =~= part@);
        }
    }
}

/// The experience line of one member: what was applied, and what was earned when that differs.
pub open spec fn member_line(m: MemberReward) -> Seq<char> {
    m.member_name@ + " +"@ + decimal(m.experience_applied as nat) + " EXP"@ + (if m.experience_applied
        != m.experience_gained {
        " ("@ + decimal(m.experience_gained as nat) + " earned)"@
    } else {
        Seq::empty()
    })
}

/// The level line of a member who levelled up.
pub open spec fn level_line(m: MemberReward) -> Seq<char> {
    m.member_name@ + " Lv "@ + decimal(m.level_ups@[0].old_level as nat) + ">"@ + decimal(
        m.level_ups@.last().new_level as nat,
    )
}

/// The level lines of the members who levelled up, in order.
pub open spec fn level_lines(ms: Seq<MemberReward>) -> Seq<Seq<char>>
    decreases ms.len(),
{
    if ms.len() == 0 {
        seq![]
    } else if ms.last().level_ups@.len() > 0 {
        level_lines(ms.drop_last()).push(level_line(ms.last()))
    } else {
        level_lines(ms.drop_last())
    }
}

/// One line per learned ability, member by member.
pub open spec fn learned_lines(ms: Seq<MemberReward>) -> Seq<Seq<char>>
    decreases ms.len(),
{
    if ms.len() == 0 {
        seq![]
    } else {
        let m = ms.last();
        learned_lines(ms.drop_last()) + m.learned_abilities@.map_values(
            |a: String| m.member_name@ + " learned "@ + a@,
        )
    }
}

/// The line for one loot stack.
pub open spec fn loot_line(l: LootReward) -> Seq<char> {
    l.name@ + " x"@ + decimal(l.quantity as nat)
}

/// The non-empty lines among `lines`.
pub open spec fn non_empty(lines: Seq<Seq<char>>) -> Seq<Seq<char>>
    decreases lines.len(),
{
    if lines.len() == 0 {
        seq![]
    } else if lines.last().len() > 0 {
        non_empty(lines.drop_last()).push(lines.last())
    } else {
        non_empty(lines.drop_last())
    }
}

/// The four lines of the victory summary.
pub open spec fn summary(r: BattleRewards) -> Seq<Seq<char>> {
    let exp = joined(r.members@.map_values(|m: MemberReward| member_line(m)), "  "@);
    let loot = joined(r.loot@.map_values(|l: LootReward| loot_line(l)), "  "@);
    let boss = match r.boss_flag {
        Some(flag) => "Boss cleared ("@ + flag@ + ")"@,
        None => Seq::empty(),
    };
    seq![
        "EXP "@ + decimal(r.total_experience as nat) + "  GP "@ + decimal(r.gp_gained as nat),
        if exp.len() == 0 {
            "No EXP"@
        } else {
            exp
        },
        if loot.len() == 0 {
            "No loot"@
        } else {
            loot
        },
        joined(
            non_empty(
                seq![
                    joined(level_lines(r.members@), "  "@),
                    joined(learned_lines(r.members@), "  "@),
                    boss,
                ],
            ),
            "  "@,
        ),
    ]
}

impl BattleRewards {
    /// The victory summary: totals; each member's experience; the haul; and the level-ups,
    /// learned abilities and cleared boss, each list joined by two spaces.
    pub fn summary_lines(&self) -> (r: Vec<String>)
        ensures
            r@.map_values(|l: String| l@) == summary(*self),
    {
        let mut head = "EXP ".to_owned();
        let total = decimal_string(self.total_experience as u64);
        head.append(total.as_str());
        head.append("  GP ");
        let gp = decimal_string(self.gp_gained as u64);
        head.append(gp.as_str());

        let mut exp = String::new();
        let mut i: usize = 0;
        while i < self.members.len()
            invariant
                i <= self.members@.len(),
                exp@ == joined(self.members@.take(i as int).map_values(|m: MemberReward| member_line(m)), "  "@),
            decreases self.members.len() - i,
        {
            let m = &self.members[i];
            let mut line = m.member_name.clone();
            line.append(" +");
            let applied = decimal_string(m.experience_applied as u64);
            line.append(applied.as_str());
            line.append(" EXP");
            if m.experience_applied != m.experience_gained {
                line.append(" (");
                let gained = decimal_string(m.experience_gained as u64);
                line.append(gained.as_str());
                line.append(" earned)");
            }
            proof {
                assert(line@ =~= member_line(*m));
                assert(self.members@.take(i + 1).map_values(|m: MemberReward| member_line(m)) =~= self.members@.take(i as int).map_values(|m: MemberReward| member_line(m)).push(member_line(*m)));
            }
            join_push(&mut exp, i > 0, line.as_str(), "  ", Ghost(self.members@.take(i as int).map_values(|m: MemberReward| member_line(m))));
            i = i + 1;
        }
        assert(self.members@.take(self.members@.len() as int) =~= self.members@);
        let exp_line = if exp.as_str().unicode_len() == 0 {
            "No EXP".to_owned()
        } else {
            exp
        };

        let mut loot = String::new();
        let mut k: usize = 0;
        while k < self.loot.len()
            invariant
                k <= self.loot@.len(),
                loot@ == joined(self.loot@.take(k as int).map_values(|l: LootReward| loot_line(l)), "  "@),
            decreases self.loot.len() - k,
        {
            let l = &self.loot[k];
            let mut line = l.name.clone();
            line.append(" x");
            let quantity = decimal_string(l.quantity as u64);
            line.append(quantity.as_str());
            proof {
                assert(self.loot@.take(k + 1).map_values(|l: LootReward| loot_line(l)) =~= self.loot@.take(k as int).map_values(|l: LootReward| loot_line(l)).push(loot_line(*l)));
            }
            join_push(&mut loot, k > 0, line.as_str(), "  ", Ghost(self.loot@.take(k as int).map_values(|l: LootReward| loot_line(l))));
            k = k + 1;
        }
        assert(self.loot@.take(self.loot@.len() as int) =~= self.loot@);
        let loot_text = if loot.as_str().unicode_len() == 0 {
            "No loot".to_owned()
        } else {
            loot
        };

        let mut levels = String::new();
        let mut any_level = false;
        let mut learned = String::new();
        let mut any_learned = false;
        let mut j: usize = 0;
        while j < self.members.len()
            invariant
                j <= self.members@.len(),
                any_level == (level_lines(self.members@.take(j as int)).len() > 0),
                levels@ == joined(level_lines(self.members@.take(j as int)), "  "@),
                any_learned == (learned_lines(self.members@.take(j as int)).len() > 0),
                learned@ == joined(learned_lines(self.members@.take(j as int)), "  "@),
            decreases self.members.len() - j,
        {
            let m = &self.members[j];
            proof {
                assert(self.members@.take(j + 1).drop_last() =~= self.members@.take(j as int));
            }
            if m.level_ups.len() > 0 {
                let mut line = m.member_name.clone();
                line.append(" Lv ");
                let first = decimal_string(m.level_ups[0].old_level as u64);
                line.append(first.as_str());
                line.append(">");
                let last = decimal_string(m.level_ups[m.level_ups.len() - 1].new_level as u64);
                line.append(last.as_str());
                join_push(&mut levels, any_level, line.as_str(), "  ", Ghost(level_lines(self.members@.take(j as int))));
                any_level = true;
            }
            let ghost before_learned = learned_lines(self.members@.take(j as int));
            let mut a: usize = 0;
            while a < m.learned_abilities.len()
                invariant
                    a <= m.learned_abilities@.len(),
                    any_learned == (before_learned.len() + a > 0),
                    learned@ == joined(before_learned + m.learned_abilities@.take(a as int).map_values(|x: String| m.member_name@ + " learned "@ + x@), "  "@),
                decreases m.learned_abilities.len() - a,
            {
                let mut line = m.member_name.clone();
                line.append(" learned ");
                line.append(m.learned_abilities[a].as_str());
                let ghost so_far = before_learned + m.learned_abilities@.take(a as int).map_values(|x: String| m.member_name@ + " learned "@ + x@);
                proof {
                    assert(before_learned + m.learned_abilities@.take(a + 1).map_values(|x: String| m.member_name@ + " learned "@ + x@) =~= so_far.push(line@));
                }
                join_push(&mut learned, any_learned, line.as_str(), "  ", Ghost(so_far));
                any_learned = true;
                a = a + 1;
            }
            proof {
                assert(m.learned_abilities@.take(m.learned_abilities@.len() as int) =~= m.learned_abilities@);
            }
            j = j + 1;
        }
        assert(self.members@.take(self.members@.len() as int) =~= self.members@);

        let boss = match &self.boss_flag {
            Some(flag) => {
                let mut b = "Boss cleared (".to_owned();
                b.append(flag.as_str());
                b.append(")");
                b
            },
            None => String::new(),
        };
        let mut tail = String::new();
        let ghost candidates = seq![levels@, learned@, boss@];
        let mut tail_started = false;
        proof {
            assert(non_empty(candidates.take(0)) =~= Seq::<Seq<char>>::empty());
        }
        if levels.as_str().unicode_len() > 0 {
            join_push(&mut tail, tail_started, levels.as_str(), "  ", Ghost(non_empty(candidates.take(0))));
            tail_started = true;
        }
        proof {
            assert(candidates.take(1).drop_last() =~= candidates.take(0));
            assert(candidates.take(1).last() == levels@);
            assert(tail@ == joined(non_empty(candidates.take(1)), "  "@));
            assert(tail_started == (non_empty(candidates.take(1)).len() > 0));
        }
        if learned.as_str().unicode_len() > 0 {
            join_push(&mut tail, tail_started, learned.as_str(), "  ", Ghost(non_empty(candidates.take(1))));
            tail_started = true;
        }
        proof {
            assert(candidates.take(2).drop_last() =~= candidates.take(1));
            assert(candidates.take(2).last() == learned@);
            assert(tail@ == joined(non_empty(candidates.take(2)), "  "@));
            assert(tail_started == (non_empty(candidates.take(2)).len() > 0));
        }
        if boss.as_str().unicode_len() > 0 {
            join_push(&mut tail, tail_started, boss.as_str(), "  ", Ghost(non_empty(candidates.take(2))));
        }
        proof {
            assert(candidates.take(3).drop_last() =~= candidates.take(2));
            assert(candidates.take(3).last() == boss@);
            assert(candidates.take(3) =~= candidates);
            assert(tail@ == joined(non_empty(candidates), "  "@));
        }
        let out = vec![head, exp_line, loot_text, tail];
        proof {
            assert(out@.map_values(|l: String| l@) =~= summary(*self));
        }
        out
    }
}


/// One stat gain of a level-up: health, mana, strength, dexterity, constitution, intelligence
/// for `which` from zero to five.
pub open spec fn gain(l: RuntimeLevelUp, which: int) -> nat {
    if which == 0 {
        l.health as nat
    } else if which == 1 {
        l.mana as nat
    } else if which == 2 {
        l.strength as nat
    } else if which == 3 {
        l.dexterity as nat
    } else if which == 4 {
        l.constitution as nat
    } else {
        l.intelligence as nat
    }
}

/// The summed gain of one stat over several level-ups.
pub open spec fn gain_sum(ls: Seq<RuntimeLevelUp>, which: int) -> nat
    decreases ls.len(),
{
    if ls.len() == 0 {
        0
    } else {
        gain_sum(ls.drop_last(), which) + gain(ls.last(), which)
    }
}

/// Whether every summed gain of every member fits a `u32`.
pub open spec fn gains_bounded(ms: Seq<MemberReward>) -> bool {
    forall|k: int, which: int|
        0 <= k < ms.len() && 0 <= which < 6 ==> #[trigger] gain_sum(ms[k].level_ups@, which) <= u32::MAX
}

/// The level-up detail of a member who levelled up.
pub open spec fn level_detail(m: MemberReward) -> Seq<char> {
    let ls = m.level_ups@;
    let first = ls[0];
    let last = ls.last();
    m.member_name@ + " Lv "@ + decimal(first.old_level as nat) + ">"@ + decimal(last.new_level as nat)
        + "\nHP +"@ + decimal(gain_sum(ls, 0)) + "="@ + decimal(last.max_health as nat) + "  MP +"@
        + decimal(gain_sum(ls, 1)) + "="@ + decimal(last.max_mana as nat) + "\nSTR +"@ + decimal(
        gain_sum(ls, 2),
    ) + "="@ + decimal(last.total_strength as nat) + "  DEX +"@ + decimal(gain_sum(ls, 3)) + "="@
        + decimal(last.total_dexterity as nat) + "  CON +"@ + decimal(gain_sum(ls, 4)) + "="@
        + decimal(last.total_constitution as nat) + "  INT +"@ + decimal(gain_sum(ls, 5)) + "="@
        + decimal(last.total_intelligence as nat)
}

/// The details of the members who levelled up, in order.
pub open spec fn level_details(ms: Seq<MemberReward>) -> Seq<Seq<char>>
    decreases ms.len(),
{
    if ms.len() == 0 {
        seq![]
    } else if ms.last().level_ups@.len() > 0 {
        level_details(ms.drop_last()).push(level_detail(ms.last()))
    } else {
        level_details(ms.drop_last())
    }
}

/// The message after rewards are applied.
pub open spec fn detail_text(ms: Seq<MemberReward>) -> Seq<char> {
    let details = joined(level_details(ms), "\n\n"@);
    if details.len() == 0 {
        "Rewards applied. Press Enter to continue."@
    } else {
        details + "\n\nPress Enter to continue."@
    }
}

/// The summed gains of level-ups, one per stat.
fn gain_sums(ls: &Vec<RuntimeLevelUp>) -> (r: [u32; 6])
    requires
        forall|which: int| 0 <= which < 6 ==> gain_sum(ls@, which) <= u32::MAX,
    ensures
        forall|which: int| 0 <= which < 6 ==> r@[which] == gain_sum(ls@, which),
{
    let mut sums: [u32; 6] = [0, 0, 0, 0, 0, 0];
    let mut i: usize = 0;
    while i < ls.len()
        invariant
            i <= ls@.len(),
            forall|which: int| 0 <= which < 6 ==> gain_sum(ls@, which) <= u32::MAX,
            forall|which: int| 0 <= which < 6 ==> sums@[which] == gain_sum(ls@.take(i as int), which),
        decreases ls.len() - i,
    {
        let l = ls[i];
        proof {
            assert(ls@.take(i + 1).drop_last() =~= ls@.take(i as int));
            assert forall|which: int| 0 <= which < 6 implies gain_sum(ls@.take(i + 1), which) <= gain_sum(ls@, which) by {
                lemma_gain_sum_prefix(ls@, i + 1, which);
            }
            assert(ls@.take(i + 1).last() == l);
            assert(gain_sum(ls@.take(i + 1), 0) == sums@[0] + l.health);
            assert(gain_sum(ls@.take(i + 1), 0) <= gain_sum(ls@, 0) && gain_sum(ls@, 0) <= u32::MAX);
            assert(gain_sum(ls@.take(i + 1), 1) == sums@[1] + l.mana);
            assert(gain_sum(ls@.take(i + 1), 1) <= gain_sum(ls@, 1) && gain_sum(ls@, 1) <= u32::MAX);
            assert(gain_sum(ls@.take(i + 1), 2) == sums@[2] + l.strength);
            assert(gain_sum(ls@.take(i + 1), 2) <= gain_sum(ls@, 2) && gain_sum(ls@, 2) <= u32::MAX);
            assert(gain_sum(ls@.take(i + 1), 3) == sums@[3] + l.dexterity);
            assert(gain_sum(ls@.take(i + 1), 3) <= gain_sum(ls@, 3) && gain_sum(ls@, 3) <= u32::MAX);
            assert(gain_sum(ls@.take(i + 1), 4) == sums@[4] + l.constitution);
            assert(gain_sum(ls@.take(i + 1), 4) <= gain_sum(ls@, 4) && gain_sum(ls@, 4) <= u32::MAX);
            assert(gain_sum(ls@.take(i + 1), 5) == sums@[5] + l.intelligence);
            assert(gain_sum(ls@.take(i + 1), 5) <= gain_sum(ls@, 5) && gain_sum(ls@, 5) <= u32::MAX);
        }
        let next: [u32; 6] = [
            sums[0] + l.health,
            sums[1] + l.mana,
            sums[2] + l.strength,
            sums[3] + l.dexterity,
            sums[4] + l.constitution,
            sums[5] + l.intelligence,
        ];
        sums = next;
        i = i + 1;
    }
    assert(ls@.take(ls@.len() as int) =~= ls@);
    sums
}

proof fn lemma_gain_sum_prefix(ls: Seq<RuntimeLevelUp>, n: int, which: int)
    requires
        0 <= n <= ls.len(),
    ensures
        gain_sum(ls.take(n), which) <= gain_sum(ls, which),
    decreases ls.len() - n,
{
    if n < ls.len() {
        lemma_gain_sum_prefix(ls, n + 1, which);
        assert(ls.take(n + 1).drop_last() =~= ls.take(n));
    } else {
        assert(ls.take(n) =~= ls);
    }
}

/// Appends `+gain=total` to `out`.
fn push_gain(out: &mut String, label: &str, gain: u32, total: u32)
    ensures
        final(out)@ == old(out)@ + label@ + decimal(gain as nat) + "="@ + decimal(total as nat),
{
    out.append(label);
    let g = decimal_string(gain as u64);
    out.append(g.as_str());
    out.append("=");
    let t = decimal_string(total as u64);
    out.append(t.as_str());
}

impl BattleRewards {
    /// The message after rewards are applied: each level-up's range, stat gains and totals,
    /// separated by blank lines, then the prompt.
    pub fn detail_message(&self) -> (r: String)
        requires
            gains_bounded(self.members@),
        ensures
            r@ == detail_text(self.members@),
    {
        let mut details = String::new();
        let mut any = false;
        let mut j: usize = 0;
        while j < self.members.len()
            invariant
                j <= self.members@.len(),
                gains_bounded(self.members@),
                any == (level_details(self.members@.take(j as int)).len() > 0),
                details@ == joined(level_details(self.members@.take(j as int)), "\n\n"@),
            decreases self.members.len() - j,
        {
            let m = &self.members[j];
            proof {
                assert(self.members@.take(j + 1).drop_last() =~= self.members@.take(j as int));
            }
            if m.level_ups.len() > 0 {
                proof {
                    assert forall|which: int| 0 <= which < 6 implies gain_sum(m.level_ups@, which) <= u32::MAX by {
                        assert(gain_sum(self.members@[j as int].level_ups@, which) <= u32::MAX);
                    }
                }
                let sums = gain_sums(&m.level_ups);
                let first = m.level_ups[0];
                let last = m.level_ups[m.level_ups.len() - 1];
                let mut line = m.member_name.clone();
                line.append(" Lv ");
                let a = decimal_string(first.old_level as u64);
                line.append(a.as_str());
                line.append(">");
                let b = decimal_string(last.new_level as u64);
                line.append(b.as_str());
                push_gain(&mut line, "\nHP +", sums[0], last.max_health);
                push_gain(&mut line, "  MP +", sums[1], last.max_mana);
                push_gain(&mut line, "\nSTR +", sums[2], last.total_strength);
                push_gain(&mut line, "  DEX +", sums[3], last.total_dexterity);
                push_gain(&mut line, "  CON +", sums[4], last.total_constitution);
                push_gain(&mut line, "  INT +", sums[5], last.total_intelligence);
                proof {
                    assert(line@ =~= level_detail(*m));
                }
                join_push(&mut details, any, line.as_str(), "\n\n", Ghost(level_details(self.members@.take(j as int))));
                any = true;
            }
            j = j + 1;
        }
        assert(self.members@.take(self.members@.len() as int) =~= self.members@);
        if details.as_str().unicode_len() == 0 {
            "Rewards applied. Press Enter to continue.".to_owned()
        } else {
            details.append("\n\nPress Enter to continue.");
            details
        }
    }
}


/// No two combatants share a key.
pub open spec fn keys_distinct(cs: Seq<BattleCombatant>) -> bool {
    forall|i: int, j: int| 0 <= i < j < cs.len() ==> (#[trigger] cs[i]).key != (#[trigger] cs[j]).key
}

/// The experience a battle's member rewards add up to.
pub open spec fn experience_total(members: Seq<MemberReward>) -> nat
    decreases members.len(),
{
    if members.len() == 0 {
        0
    } else {
        experience_total(members.drop_last()) + members.last().experience_gained as nat
    }
}

/// What the party members among `cs` earn in all.
pub open spec fn party_earned(cs: Seq<BattleCombatant>, share: nat, bonuses: Seq<CombatantKey>) -> nat
    decreases cs.len(),
{
    if cs.len() == 0 {
        0
    } else {
        party_earned(cs.drop_last(), share, bonuses) + if cs.last().key.side == BattleSide::Party {
            earned(cs.last(), share, bonuses)
        } else {
            0
        }
    }
}

/// How many of `keys` were drawn for a bonus point.
pub open spec fn picked_among(keys: Seq<CombatantKey>, bonuses: Seq<CombatantKey>) -> nat
    decreases keys.len(),
{
    if keys.len() == 0 {
        0
    } else {
        picked_among(keys.drop_last(), bonuses) + if bonuses.contains(keys.last()) {
            1nat
        } else {
            0nat
        }
    }
}

proof fn lemma_members_total(
    cs: Seq<BattleCombatant>,
    members: Seq<MemberReward>,
    share: nat,
    bonuses: Seq<CombatantKey>,
)
    requires
        members.len() == party_of(cs).len(),
        forall|k: int|
            0 <= k < members.len() ==> (#[trigger] members[k]).experience_gained == earned(
                party_of(cs)[k],
                share,
                bonuses,
            ),
    ensures
        experience_total(members) == party_earned(cs, share, bonuses),
    decreases cs.len(),
{
    if cs.len() > 0 {
        let rest = cs.drop_last();
        if cs.last().key.side == BattleSide::Party {
            assert(party_of(cs) == party_of(rest).push(cs.last()));
            let m = members.drop_last();
            assert forall|k: int| 0 <= k < m.len() implies (#[trigger] m[k]).experience_gained
                == earned(party_of(rest)[k], share, bonuses) by {
                assert(m[k] == members[k]);
                assert(party_of(cs)[k] == party_of(rest)[k]);
            }
            lemma_members_total(rest, m, share, bonuses);
            assert(members.last() == members[members.len() - 1]);
        } else {
            assert(party_of(cs) == party_of(rest));
            lemma_members_total(rest, members, share, bonuses);
        }
    }
}

/// How many of `members` gained exactly `amount` experience.
pub open spec fn members_gaining(members: Seq<MemberReward>, amount: nat) -> nat
    decreases members.len(),
{
    if members.len() == 0 {
        0
    } else {
        members_gaining(members.drop_last(), amount) + if members.last().experience_gained == amount {
            1nat
        } else {
            0nat
        }
    }
}

proof fn lemma_members_gaining(
    cs: Seq<BattleCombatant>,
    members: Seq<MemberReward>,
    share: nat,
    bonuses: Seq<CombatantKey>,
)
    requires
        members.len() == party_of(cs).len(),
        forall|k: int|
            0 <= k < members.len() ==> (#[trigger] members[k]).experience_gained == earned(
                party_of(cs)[k],
                share,
                bonuses,
            ),
    ensures
        members_gaining(members, share + 1) == picked_among(
            eligible_keys(cs, BattleSide::Party, false),
            bonuses,
        ),
    decreases cs.len(),
{
    if cs.len() > 0 {
        let rest = cs.drop_last();
        let e = eligible_keys(rest, BattleSide::Party, false);
        let c = cs.last();
        if c.key.side == BattleSide::Party {
            assert(party_of(cs) == party_of(rest).push(c));
            let m = members.drop_last();
            assert forall|k: int| 0 <= k < m.len() implies (#[trigger] m[k]).experience_gained
                == earned(party_of(rest)[k], share, bonuses) by {
                assert(m[k] == members[k]);
                assert(party_of(cs)[k] == party_of(rest)[k]);
            }
            lemma_members_gaining(rest, m, share, bonuses);
            assert(members.last() == members[members.len() - 1]);
            assert(members.last().experience_gained == earned(c, share, bonuses));
            if c.alive() {
                let e2 = e.push(c.key);
                assert(eligible_keys(cs, BattleSide::Party, false) == e2);
                assert(e2.drop_last() =~= e);
            } else {
                assert(eligible_keys(cs, BattleSide::Party, false) == e);
            }
        } else {
            assert(party_of(cs) == party_of(rest));
            lemma_members_gaining(rest, members, share, bonuses);
            assert(eligible_keys(cs, BattleSide::Party, false) == e);
        }
    }
}

proof fn lemma_party_earned_split(cs: Seq<BattleCombatant>, share: nat, bonuses: Seq<CombatantKey>)
    ensures
        party_earned(cs, share, bonuses) == share * eligible_keys(cs, BattleSide::Party, false).len()
            + picked_among(eligible_keys(cs, BattleSide::Party, false), bonuses),
    decreases cs.len(),
{
    if cs.len() > 0 {
        let rest = cs.drop_last();
        lemma_party_earned_split(rest, share, bonuses);
        let e = eligible_keys(rest, BattleSide::Party, false);
        let c = cs.last();
        if c.key.side == BattleSide::Party && c.alive() {
            let e2 = e.push(c.key);
            assert(eligible_keys(cs, BattleSide::Party, false) == e2);
            assert(e2.drop_last() =~= e);
            assert(share * (e.len() + 1) == share * e.len() + share) by (nonlinear_arith);
        } else {
            assert(eligible_keys(cs, BattleSide::Party, false) == e);
        }
    }
}

proof fn lemma_picked_among_agree(keys: Seq<CombatantKey>, a: Seq<CombatantKey>, b: Seq<CombatantKey>)
    requires
        forall|i: int| 0 <= i < keys.len() ==> a.contains(#[trigger] keys[i]) == b.contains(keys[i]),
    ensures
        picked_among(keys, a) == picked_among(keys, b),
    decreases keys.len(),
{
    if keys.len() > 0 {
        let rest = keys.drop_last();
        assert forall|i: int| 0 <= i < rest.len() implies a.contains(#[trigger] rest[i]) == b.contains(rest[i]) by {
            assert(rest[i] == keys[i]);
        }
        lemma_picked_among_agree(rest, a, b);
        assert(keys.last() == keys[keys.len() - 1]);
    }
}

proof fn lemma_picked_among_all(keys: Seq<CombatantKey>, bonuses: Seq<CombatantKey>)
    requires
        keys.no_duplicates(),
        bonuses.no_duplicates(),
        forall|k: CombatantKey| bonuses.contains(k) ==> keys.contains(k),
    ensures
        picked_among(keys, bonuses) == bonuses.len(),
    decreases keys.len(),
{
    if keys.len() == 0 {
        if bonuses.len() > 0 {
            assert(bonuses.contains(bonuses[0]));
        }
    } else {
        let rest = keys.drop_last();
        let x = keys.last();
        assert(rest.no_duplicates());
        assert(!rest.contains(x)) by {
            if rest.contains(x) {
                let i = choose|i: int| 0 <= i < rest.len() && rest[i] == x;
                assert(keys[i] == keys[keys.len() - 1]);
            }
        }
        if bonuses.contains(x) {
            let i = choose|i: int| 0 <= i < bonuses.len() && bonuses[i] == x;
            let smaller = bonuses.remove(i);
            assert(smaller.no_duplicates()) by {
                assert forall|p: int, q: int| 0 <= p < smaller.len() && 0 <= q < smaller.len() && p != q implies smaller[p] != smaller[q] by {
                    let pp = if p < i { p } else { p + 1 };
                    let qq = if q < i { q } else { q + 1 };
                    assert(smaller[p] == bonuses[pp]);
                    assert(smaller[q] == bonuses[qq]);
                }
            }
            assert forall|k: CombatantKey| smaller.contains(k) implies rest.contains(k) by {
                let p = choose|p: int| 0 <= p < smaller.len() && smaller[p] == k;
                let pp = if p < i { p } else { p + 1 };
                assert(smaller[p] == bonuses[pp]);
                assert(bonuses.contains(k));
                assert(k != x);
                let q = choose|q: int| 0 <= q < keys.len() && keys[q] == k;
                assert(q < keys.len() - 1);
                assert(rest[q] == k);
            }
            lemma_picked_among_all(rest, smaller);
            assert forall|j: int| 0 <= j < rest.len() implies bonuses.contains(#[trigger] rest[j]) == smaller.contains(rest[j]) by {
                let k = rest[j];
                assert(k != x);
                if bonuses.contains(k) {
                    let p = choose|p: int| 0 <= p < bonuses.len() && bonuses[p] == k;
                    assert(p != i);
                    if p < i {
                        assert(smaller[p] == k);
                    } else {
                        assert(smaller[p - 1] == k);
                    }
                }
                if smaller.contains(k) {
                    let p = choose|p: int| 0 <= p < smaller.len() && smaller[p] == k;
                    if p < i {
                        assert(bonuses[p] == k);
                    } else {
                        assert(bonuses[p + 1] == k);
                    }
                }
            }
            lemma_picked_among_agree(rest, bonuses, smaller);
        } else {
            assert forall|k: CombatantKey| bonuses.contains(k) implies rest.contains(k) by {
                assert(keys.contains(k));
                let q = choose|q: int| 0 <= q < keys.len() && keys[q] == k;
                assert(q < keys.len() - 1);
                assert(rest[q] == k);
            }
            lemma_picked_among_all(rest, bonuses);
        }
    }
}

proof fn lemma_bonus_picks_exact(pool: Seq<CombatantKey>, count: nat, s: u64)
    requires
        pool.no_duplicates(),
        count <= pool.len(),
    ensures
        bonus_picks(pool, count, s).0.len() == count,
        bonus_picks(pool, count, s).0.no_duplicates(),
    decreases count,
{
    if count > 0 {
        let index = ((output(s) as nat) % pool.len()) as int;
        let smaller = pool.remove(index);
        assert(smaller.no_duplicates()) by {
            assert forall|p: int, q: int| 0 <= p < smaller.len() && 0 <= q < smaller.len() && p != q implies smaller[p] != smaller[q] by {
                let pp = if p < index { p } else { p + 1 };
                let qq = if q < index { q } else { q + 1 };
                assert(smaller[p] == pool[pp]);
                assert(smaller[q] == pool[qq]);
            }
        }
        lemma_bonus_picks_exact(smaller, (count - 1) as nat, next_state(s));
        lemma_bonus_picks_bound(smaller, (count - 1) as nat, next_state(s));
        let (rest, _) = bonus_picks(smaller, (count - 1) as nat, next_state(s));
        let all = seq![pool[index]] + rest;
        assert(!rest.contains(pool[index])) by {
            if rest.contains(pool[index]) {
                assert(smaller.contains(pool[index]));
                let q = choose|q: int| 0 <= q < smaller.len() && smaller[q] == pool[index];
                let qq = if q < index { q } else { q + 1 };
                assert(smaller[q] == pool[qq]);
            }
        }
        assert forall|p: int, q: int| 0 <= p < all.len() && 0 <= q < all.len() && p != q implies all[p] != all[q] by {
            if p == 0 && q > 0 {
                assert(all[q] == rest[q - 1]);
            } else if q == 0 && p > 0 {
                assert(all[p] == rest[p - 1]);
            } else if p > 0 && q > 0 {
                assert(all[p] == rest[p - 1]);
                assert(all[q] == rest[q - 1]);
            }
        }
    }
}

proof fn lemma_eligible_keys_named(cs: Seq<BattleCombatant>, side: BattleSide, ko_eligible: bool, k: CombatantKey)
    requires
        eligible_keys(cs, side, ko_eligible).contains(k),
    ensures
        exists|i: int| 0 <= i < cs.len() && (#[trigger] cs[i]).key == k,
    decreases cs.len(),
{
    let rest = eligible_keys(cs.drop_last(), side, ko_eligible);
    if rest.contains(k) {
        lemma_eligible_keys_named(cs.drop_last(), side, ko_eligible, k);
        let i = choose|i: int| 0 <= i < cs.drop_last().len() && (#[trigger] cs.drop_last()[i]).key == k;
        assert(cs[i] == cs.drop_last()[i]);
    } else {
        let e = eligible_keys(cs, side, ko_eligible);
        let p = choose|p: int| 0 <= p < e.len() && e[p] == k;
        assert(e != rest);
        assert(cs[cs.len() - 1].key == k);
    }
}

proof fn lemma_eligible_keys_distinct(cs: Seq<BattleCombatant>, side: BattleSide, ko_eligible: bool)
    requires
        keys_distinct(cs),
    ensures
        eligible_keys(cs, side, ko_eligible).no_duplicates(),
    decreases cs.len(),
{
    if cs.len() > 0 {
        let rest = cs.drop_last();
        assert(keys_distinct(rest)) by {
            assert forall|i: int, j: int| 0 <= i < j < rest.len() implies (#[trigger] rest[i]).key != (#[trigger] rest[j]).key by {
                assert(rest[i] == cs[i] && rest[j] == cs[j]);
            }
        }
        lemma_eligible_keys_distinct(rest, side, ko_eligible);
        let e = eligible_keys(rest, side, ko_eligible);
        let c = cs.last();
        if eligible_on(c, side, ko_eligible) {
            assert(!e.contains(c.key)) by {
                if e.contains(c.key) {
                    lemma_eligible_keys_named(rest, side, ko_eligible, c.key);
                    let i = choose|i: int| 0 <= i < rest.len() && (#[trigger] rest[i]).key == c.key;
                    assert(cs[i].key == cs[cs.len() - 1].key);
                }
            }
            let e2 = e.push(c.key);
            assert forall|p: int, q: int| 0 <= p < e2.len() && 0 <= q < e2.len() && p != q implies e2[p] != e2[q] by {
                if p < e.len() && q < e.len() {
                } else if p == e.len() {
                    assert(e.contains(e2[q]) ==> e2[q] != c.key);
                    assert(e2[q] == e[q]);
                } else {
                    assert(e2[p] == e[p]);
                }
            }
        }
    }
}

/// A won battle's experience is shared out whole: the member rewards add up to the experience
/// the enemies yield, a knocked-out member earns nothing, and each living member earns the
/// even share, exactly `total % living` of them (drawn without repeats) one point more.
pub proof fn lemma_rewards_share_all_experience(
    cs: Seq<BattleCombatant>,
    members: Seq<MemberReward>,
    s: u64,
)
    requires
        keys_distinct(cs),
        eligible_keys(cs, BattleSide::Party, false).len() > 0,
        members.len() == party_of(cs).len(),
        ({
            let total = enemy_experience(cs);
            let living = eligible_keys(cs, BattleSide::Party, false);
            let share = share_of(total, living.len());
            let bonuses = bonus_picks(living, remainder_of(total, living.len()), s).0;
            forall|k: int|
                0 <= k < members.len() ==> member_reward_of(
                    #[trigger] members[k],
                    party_of(cs)[k],
                    share,
                    bonuses,
                )
        }),
    ensures
        experience_total(members) == enemy_experience(cs),
        forall|k: int|
            0 <= k < members.len() && !party_of(cs)[k].alive() ==> (#[trigger] members[k]).experience_gained
                == 0,
        ({
            let total = enemy_experience(cs);
            let living = eligible_keys(cs, BattleSide::Party, false);
            let share = total / living.len();
            let bonuses = bonus_picks(living, remainder_of(total, living.len()), s).0;
            &&& forall|k: int|
                0 <= k < members.len() && party_of(cs)[k].alive() ==> (#[trigger] members[k]).experience_gained
                    == share + (if bonuses.contains(party_of(cs)[k].key) {
                    1nat
                } else {
                    0nat
                })
            &&& bonuses.len() == total % living.len()
            &&& members_gaining(members, share + 1) == total % living.len()
            &&& bonuses.no_duplicates()
            &&& forall|k: CombatantKey| bonuses.contains(k) ==> living.contains(k)
        }),
{
    let total = enemy_experience(cs);
    let living = eligible_keys(cs, BattleSide::Party, false);
    let n = living.len();
    let share = share_of(total, n);
    let remainder = remainder_of(total, n);
    assert(share * n <= total && total - share * n < n) by (nonlinear_arith)
        requires
            n > 0,
            share == total / n,
    ;
    let bonuses = bonus_picks(living, remainder, s).0;
    lemma_eligible_keys_distinct(cs, BattleSide::Party, false);
    lemma_bonus_picks_exact(living, remainder, s);
    lemma_bonus_picks_bound(living, remainder, s);
    lemma_picked_among_all(living, bonuses);
    lemma_party_earned_split(cs, share, bonuses);
    assert forall|k: int| 0 <= k < members.len() implies (#[trigger] members[k]).experience_gained
        == earned(party_of(cs)[k], share, bonuses) by {
        assert(member_reward_of(members[k], party_of(cs)[k], share, bonuses));
    }
    lemma_members_total(cs, members, share, bonuses);
    lemma_members_gaining(cs, members, share, bonuses);
    assert(remainder == total % n) by (nonlinear_arith)
        requires
            n > 0,
            share == total / n,
            remainder == total - share * n,
    ;
}

} // verus!
