//! The party's item stock: how many of each item it carries, each stack capped by balance.

use vstd::prelude::*;

use crate::scenario_balance::EconomyBalance;
use crate::text::str_equals;

verus! {

/// Why an item could not be stored.
#[derive(Clone, Copy, Debug, PartialEq, Eq, Structural)]
pub enum RepositoryError {
    /// A quantity of zero was offered.
    ZeroQuantity,
}

/// The items the party carries: one stack per item id, in the order first added.
#[derive(Debug, PartialEq, Eq)]
pub struct RuntimeRepository {
    items: Vec<(String, u32)>,
    item_qty_cap: u32,
}

/// The stack count of `id` among `items`, or zero.
pub open spec fn count_in(items: Seq<(Seq<char>, nat)>, id: Seq<char>) -> nat
    decreases items.len(),
{
    if items.len() == 0 {
        0
    } else if items.last().0 == id {
        items.last().1
    } else {
        count_in(items.drop_last(), id)
    }
}

impl RuntimeRepository {
    /// The stacks as plain values.
    pub closed spec fn stacks(&self) -> Seq<(Seq<char>, nat)> {
        self.items@.map_values(|t: (String, u32)| (t.0@, t.1 as nat))
    }

    /// The largest stack of one item.
    pub closed spec fn cap(&self) -> nat {
        self.item_qty_cap as nat
    }

    /// How many of `id` the party carries.
    pub open spec fn count(&self, id: Seq<char>) -> nat {
        count_in(self.stacks(), id)
    }

    #[verifier::type_invariant]
    spec fn well_formed(self) -> bool {
        &&& forall|i: int, j: int|
            0 <= i < j < self.items@.len() ==> self.items@[i].0@ != self.items@[j].0@
        &&& forall|i: int| 0 <= i < self.items@.len() ==> self.items@[i].1 <= self.item_qty_cap
    }

    /// An empty stock whose stacks hold at most `economy.item_qty_cap`.
    pub fn from_balance(economy: &EconomyBalance) -> (r: Self)
        ensures
            r.cap() == economy.item_qty_cap.value(),
            forall|id: Seq<char>| r.count(id) == 0,
    {
        let r = RuntimeRepository { items: Vec::new(), item_qty_cap: economy.item_qty_cap.get() };
        assert(r.stacks() =~= Seq::<(Seq<char>, nat)>::empty());
        r
    }

    /// The position of the stack of `id`, if any.
    fn position(&self, id: &str) -> (r: Option<usize>)
        ensures
            match r {
                Some(i) => i < self.items@.len() && self.items@[i as int].0@ == id@,
                None => forall|i: int| 0 <= i < self.items@.len() ==> self.items@[i].0@ != id@,
            },
    {
        let mut i: usize = 0;
        while i < self.items.len()
            invariant
                i <= self.items@.len(),
                forall|k: int| 0 <= k < i ==> self.items@[k].0@ != id@,
            decreases self.items.len() - i,
        {
            if str_equals(self.items[i].0.as_str(), id) {
                return Some(i);
            }
            i = i + 1;
        }
        None
    }

    /// How many of `id` the party carries.
    pub fn item_count(&self, id: &str) -> (r: u32)
        ensures
            r == self.count(id@),
    {
        proof {
            use_type_invariant(self);
        }
        match self.position(id) {
            Some(i) => {
                proof {
                    lemma_count_at(self.stacks(), id@, i as int);
                }
                self.items[i].1
            },
            None => {
                proof {
                    lemma_count_absent(self.stacks(), id@);
                }
                0
            },
        }
    }

    /// Adds up to `quantity` of `id`, as far as the stack cap allows. Returns how many were
    /// added; a zero quantity is refused.
    pub fn add_item(&mut self, id: &str, quantity: u32) -> (r: Result<u32, RepositoryError>)
        ensures
            quantity == 0 ==> r == Err::<u32, RepositoryError>(RepositoryError::ZeroQuantity)
                && final(self).count(id@) == old(self).count(id@),
            quantity > 0 ==> (r matches Ok(added) && {
                let held = old(self).count(id@);
                let room = if held >= old(self).cap() {
                    0
                } else {
                    (old(self).cap() - held) as nat
                };
                &&& added == if quantity <= room {
                    quantity as nat
                } else {
                    room
                }
                &&& final(self).count(id@) == held + added
            }),
            forall|other: Seq<char>| other != id@ ==> final(self).count(other) == old(self).count(other),
            final(self).cap() == old(self).cap(),
    {
        proof {
            use_type_invariant(&*self);
        }
        if quantity == 0 {
            return Err(RepositoryError::ZeroQuantity);
        }
        let ghost before = self.stacks();
        match self.position(id) {
            Some(i) => {
                proof {
                    lemma_count_at(before, id@, i as int);
                }
                let held = self.items[i].1;
                let room = if held >= self.item_qty_cap {
                    0
                } else {
                    self.item_qty_cap - held
                };
                let added = if quantity <= room {
                    quantity
                } else {
                    room
                };
                let mut stacks: Vec<(String, u32)> = Vec::new();
                std::mem::swap(&mut stacks, &mut self.items);
                let (name, _) = stacks.remove(i);
                stacks.insert(i, (name, held + added));
                self.items = stacks;
                proof {
                    assert(self.stacks() =~= before.update(i as int, (id@, (held + added) as nat)));
                    lemma_count_update(before, id@, i as int, (held + added) as nat);
                }
                Ok(added)
            },
            None => {
                proof {
                    lemma_count_absent(before, id@);
                }
                let added = if quantity <= self.item_qty_cap {
                    quantity
                } else {
                    self.item_qty_cap
                };
                let mut stacks: Vec<(String, u32)> = Vec::new();
                std::mem::swap(&mut stacks, &mut self.items);
                stacks.push((id.to_owned(), added));
                self.items = stacks;
                proof {
                    assert(self.stacks() =~= before.push((id@, added as nat)));
                    assert(self.stacks().drop_last() =~= before);
                }
                Ok(added)
            },
        }
    }

    /// Uses up one of `id`, when any is carried. Returns whether one was used.
    pub fn consume_one(&mut self, id: &str) -> (r: bool)
        ensures
            r == (old(self).count(id@) > 0),
            r ==> final(self).count(id@) == old(self).count(id@) - 1,
            !r ==> final(self).count(id@) == old(self).count(id@),
            forall|other: Seq<char>| other != id@ ==> final(self).count(other) == old(self).count(other),
            final(self).cap() == old(self).cap(),
    {
        proof {
            use_type_invariant(&*self);
        }
        let ghost before = self.stacks();
        match self.position(id) {
            Some(i) => {
                proof {
                    lemma_count_at(before, id@, i as int);
                }
                let held = self.items[i].1;
                if held == 0 {
                    return false;
                }
                let mut stacks: Vec<(String, u32)> = Vec::new();
                std::mem::swap(&mut stacks, &mut self.items);
                let (name, _) = stacks.remove(i);
                stacks.insert(i, (name, held - 1));
                self.items = stacks;
                proof {
                    assert(self.stacks() =~= before.update(i as int, (id@, (held - 1) as nat)));
                    lemma_count_update(before, id@, i as int, (held - 1) as nat);
                }
                true
            },
            None => {
                proof {
                    lemma_count_absent(before, id@);
                }
                false
            },
        }
    }
}

impl Default for RuntimeRepository {
    /// An empty stock with the default balance's stack cap.
    fn default() -> (r: Self)
        ensures
            r.cap() == 100,
            forall|id: Seq<char>| r.count(id) == 0,
    {
        let r = RuntimeRepository { items: Vec::new(), item_qty_cap: 100 };
        assert(r.stacks() =~= Seq::<(Seq<char>, nat)>::empty());
        r
    }
}

proof fn lemma_count_absent(items: Seq<(Seq<char>, nat)>, id: Seq<char>)
    requires
        forall|i: int| 0 <= i < items.len() ==> items[i].0 != id,
    ensures
        count_in(items, id) == 0,
    decreases items.len(),
{
    if items.len() > 0 {
        assert forall|i: int| 0 <= i < items.len() - 1 implies items.drop_last()[i].0 != id by {
            assert(items.drop_last()[i] == items[i]);
        }
        lemma_count_absent(items.drop_last(), id);
    }
}

proof fn lemma_count_at(items: Seq<(Seq<char>, nat)>, id: Seq<char>, at: int)
    requires
        0 <= at < items.len(),
        items[at].0 == id,
        forall|i: int, j: int| 0 <= i < j < items.len() ==> items[i].0 != items[j].0,
    ensures
        count_in(items, id) == items[at].1,
    decreases items.len(),
{
    if at < items.len() - 1 {
        assert(items.last().0 != id);
        assert(items.drop_last()[at] == items[at]);
        assert forall|i: int, j: int| 0 <= i < j < items.drop_last().len() implies items.drop_last()[i].0 != items.drop_last()[j].0 by {
            assert(items.drop_last()[i] == items[i] && items.drop_last()[j] == items[j]);
        }
        lemma_count_at(items.drop_last(), id, at);
    }
}

proof fn lemma_count_update(items: Seq<(Seq<char>, nat)>, id: Seq<char>, at: int, quantity: nat)
    requires
        0 <= at < items.len(),
        items[at].0 == id,
        forall|i: int, j: int| 0 <= i < j < items.len() ==> items[i].0 != items[j].0,
    ensures
        count_in(items.update(at, (id, quantity)), id) == quantity,
        forall|other: Seq<char>| other != id ==> count_in(items.update(at, (id, quantity)), other) == count_in(items, other),
    decreases items.len(),
{
    let updated = items.update(at, (id, quantity));
    assert forall|i: int, j: int| 0 <= i < j < updated.len() implies updated[i].0 != updated[j].0 by {}
    lemma_count_at(updated, id, at);
    assert forall|other: Seq<char>| other != id implies count_in(updated, other) == count_in(items, other) by {
        lemma_count_update_other(items, id, at, quantity, other);
    }
}

proof fn lemma_count_update_other(items: Seq<(Seq<char>, nat)>, id: Seq<char>, at: int, quantity: nat, other: Seq<char>)
    requires
        0 <= at < items.len(),
        items[at].0 == id,
        other != id,
    ensures
        count_in(items.update(at, (id, quantity)), other) == count_in(items, other),
    decreases items.len(),
{
    let updated = items.update(at, (id, quantity));
    if at < items.len() - 1 {
        assert(updated.drop_last() =~= items.drop_last().update(at, (id, quantity)));
        lemma_count_update_other(items.drop_last(), id, at, quantity, other);
    } else {
        assert(updated.drop_last() =~= items.drop_last());
    }
}

} // verus!
