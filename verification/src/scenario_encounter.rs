//! Encounter zones: the weighted enemy formations of a map, its optional boss, and the
//! enemies that bar the way until an item is carried.

use vstd::prelude::*;

use crate::scenario_class::{PositiveFinite, UnitInterval};

verus! {

/// One encounter zone.
#[derive(Clone, Debug, PartialEq)]
pub struct EncounterZone {
    /// The zone id; the file name stem stands in when it is absent.
    pub id: Option<String>,
    pub name: String,
    /// The chance of an encounter per step.
    pub density: UnitInterval,
    /// The weighted formations, in authored order.
    pub entries: Vec<EncounterFormation>,
    pub boss: Option<EncounterBoss>,
    pub barrier_enemies: Vec<BarrierEnemy>,
    pub background: String,
    pub spawn_frequency: Option<PositiveFinite>,
}

/// The sum of the formation weights.
pub open spec fn weight_sum(entries: Seq<EncounterFormation>) -> nat
    decreases entries.len(),
{
    if entries.len() == 0 {
        0
    } else {
        weight_sum(entries.drop_last()) + entries.last().weight as nat
    }
}

impl EncounterZone {
    /// The zone's id, or `filename_stem` when the zone names none.
    pub fn effective_id<'a>(&'a self, filename_stem: &'a str) -> (r: &'a str)
        ensures
            r@ == match self.id {
                Some(id) => id@,
                None => filename_stem@,
            },
    {
        match &self.id {
            Some(id) => id.as_str(),
            None => filename_stem,
        }
    }

    /// The sum of the formation weights.
    pub fn total_weight(&self) -> (r: u64)
        requires
            weight_sum(self.entries@) <= u64::MAX,
        ensures
            r == weight_sum(self.entries@),
    {
        let mut total: u64 = 0;
        let mut i: usize = 0;
        while i < self.entries.len()
            invariant
                i <= self.entries@.len(),
                total == weight_sum(self.entries@.take(i as int)),
                weight_sum(self.entries@) <= u64::MAX,
            decreases self.entries.len() - i,
        {
            proof {
                assert(self.entries@.take(i + 1).drop_last() =~= self.entries@.take(i as int));
                lemma_weight_sum_prefix(self.entries@, i + 1);
            }
            total = total + self.entries[i].weight as u64;
            i = i + 1;
        }
        assert(self.entries@.take(i as int) =~= self.entries@);
        total
    }
}

/// A prefix weighs no more than the whole.
pub proof fn lemma_weight_sum_prefix(entries: Seq<EncounterFormation>, n: int)
    requires
        0 <= n <= entries.len(),
    ensures
        weight_sum(entries.take(n)) <= weight_sum(entries),
    decreases entries.len() - n,
{
    if n < entries.len() {
        lemma_weight_sum_prefix(entries, n + 1);
        assert(entries.take(n + 1).drop_last() =~= entries.take(n));
    } else {
        assert(entries.take(n) =~= entries);
    }
}

/// One weighted formation.
#[derive(Clone, Debug, PartialEq, Eq)]
pub struct EncounterFormation {
    /// The enemies, in order, duplicates kept.
    pub enemy_ids: Vec<String>,
    pub weight: u32,
    pub chase_range: u32,
}

/// A zone's boss.
#[derive(Clone, Debug, PartialEq, Eq)]
pub struct EncounterBoss {
    pub enemy_id: String,
    pub name: String,
    /// Whether the boss is fought only once.
    pub once: bool,
    pub completion: BossCompletion,
}

impl EncounterBoss {
    /// A boss as authored: the name defaults to the enemy id, `once` to true, and the
    /// completion to setting no flag.
    pub fn from_source(
        enemy_id: &str,
        name: Option<&str>,
        once: Option<bool>,
        completion: Option<BossCompletion>,
    ) -> (r: Self)
        ensures
            r.enemy_id@ == enemy_id@,
            r.name@ == match name {
                Some(n) => n@,
                None => enemy_id@,
            },
            r.once == match once {
                Some(o) => o,
                None => true,
            },
            r.completion.set_flag@ == match completion {
                Some(c) => c.set_flag@,
                None => Seq::<char>::empty(),
            },
    {
        let name = match name {
            Some(n) => n.to_owned(),
            None => enemy_id.to_owned(),
        };
        let once = match once {
            Some(o) => o,
            None => true,
        };
        let completion = match completion {
            Some(c) => c,
            None => BossCompletion { set_flag: String::new() },
        };
        EncounterBoss { enemy_id: enemy_id.to_owned(), name, once, completion }
    }
}

/// What defeating a boss records.
#[derive(Clone, Debug, Default, PartialEq, Eq)]
pub struct BossCompletion {
    /// The story flag set on victory; empty sets none.
    pub set_flag: String,
}

/// An enemy that blocks the way unless the party carries an item.
#[derive(Clone, Debug, PartialEq, Eq)]
pub struct BarrierEnemy {
    pub enemy_id: String,
    /// The item that lets the party through; empty when none does.
    pub requires_item: String,
    pub blocked_message: String,
}

} // verus!
