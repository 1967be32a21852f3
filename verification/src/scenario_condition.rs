//! Shared source-authored flag conditions.
//!
//! Dialogue-entry conditions and NPC `present` mappings use the same rule: every `requires`
//! flag must be set and no `excludes` flag may be set. Missing fields are empty lists.

use vstd::prelude::*;

verus! {

/// A conjunction of required flags and excluded flags.
///
/// Vectors keep source order and duplicates exactly; duplicates do not change membership-based
/// evaluation.
#[derive(Clone, Debug, Default, PartialEq, Eq)]
pub struct FlagConditions {
    /// Flag identifiers that must all be set.
    pub requires: Vec<String>,
    /// Flag identifiers that must all be absent.
    pub excludes: Vec<String>,
}

/// Whether the lookup `has_flag` can answer `answer` for a flag spelled `name`.
pub open spec fn answers<F: Fn(&str) -> bool>(has_flag: F, name: Seq<char>, answer: bool) -> bool {
    exists|s: &str| s@ == name && call_ensures(has_flag, (s,), answer)
}

/// The lookup gives one answer per flag spelling.
pub open spec fn is_lookup<F: Fn(&str) -> bool>(has_flag: F) -> bool {
    &&& forall|s: &str| call_requires(has_flag, (s,))
    &&& forall|s1: &str, s2: &str, b1: bool, b2: bool|
        s1@ == s2@ && call_ensures(has_flag, (s1,), b1) && call_ensures(has_flag, (s2,), b2)
            ==> b1 == b2
}

/// The flag spellings listed in `names`.
pub open spec fn spellings(names: Seq<String>) -> Set<Seq<char>> {
    Set::new(|n: Seq<char>| exists|i: int| 0 <= i < names.len() && #[trigger] names[i]@ == n)
}

/// Whether the condition `c` holds under the lookup `has_flag`: every required flag is set and
/// no excluded flag is.
pub open spec fn holds<F: Fn(&str) -> bool>(c: FlagConditions, has_flag: F) -> bool {
    &&& forall|i: int| 0 <= i < c.requires@.len() ==> answers(has_flag, c.requires@[i]@, true)
    &&& forall|i: int| 0 <= i < c.excludes@.len() ==> answers(has_flag, c.excludes@[i]@, false)
}

/// Only which flags a condition lists matters: reordering or repeating the entries of
/// `requires` or `excludes` does not change whether it holds.
pub proof fn lemma_condition_ignores_order_and_repeats<F: Fn(&str) -> bool>(
    a: FlagConditions,
    b: FlagConditions,
    has_flag: F,
)
    requires
        spellings(a.requires@) == spellings(b.requires@),
        spellings(a.excludes@) == spellings(b.excludes@),
    ensures
        holds(a, has_flag) == holds(b, has_flag),
{
    assert forall|x: FlagConditions, y: FlagConditions|
        spellings(x.requires@) == spellings(y.requires@) && spellings(x.excludes@) == spellings(
            y.excludes@,
        ) && #[trigger] holds(x, has_flag) implies #[trigger] holds(y, has_flag) by {
        assert forall|i: int| 0 <= i < y.requires@.len() implies answers(has_flag, y.requires@[i]@, true) by {
            assert(spellings(y.requires@).contains(y.requires@[i]@));
            assert(spellings(x.requires@).contains(y.requires@[i]@));
            let k = choose|k: int| 0 <= k < x.requires@.len() && #[trigger] x.requires@[k]@ == y.requires@[i]@;
            assert(answers(has_flag, x.requires@[k]@, true));
        }
        assert forall|i: int| 0 <= i < y.excludes@.len() implies answers(has_flag, y.excludes@[i]@, false) by {
            assert(spellings(y.excludes@).contains(y.excludes@[i]@));
            assert(spellings(x.excludes@).contains(y.excludes@[i]@));
            let k = choose|k: int| 0 <= k < x.excludes@.len() && #[trigger] x.excludes@[k]@ == y.excludes@[i]@;
            assert(answers(has_flag, x.excludes@[k]@, false));
        }
    }
    if holds(a, has_flag) {
        assert(holds(b, has_flag));
    }
    if holds(b, has_flag) {
        assert(holds(a, has_flag));
    }
}

impl FlagConditions {
    /// Whether this condition matches the supplied flag-membership lookup: every required flag
    /// is set and no excluded flag is. Empty lists make no restriction.
    pub fn is_satisfied_by<F: Fn(&str) -> bool>(&self, has_flag: F) -> (r: bool)
        requires
            is_lookup(has_flag),
        ensures
            r == ((forall|i: int|
                0 <= i < self.requires@.len() ==> answers(has_flag, self.requires@[i]@, true))
                && (forall|i: int|
                0 <= i < self.excludes@.len() ==> answers(has_flag, self.excludes@[i]@, false))),
            r == holds(*self, has_flag),
    {
        let mut i: usize = 0;
        while i < self.requires.len()
            invariant
                is_lookup(has_flag),
                i <= self.requires@.len(),
                forall|k: int| 0 <= k < i ==> answers(has_flag, self.requires@[k]@, true),
            decreases self.requires.len() - i,
        {
            let name = self.requires[i].as_str();
            let set = has_flag(name);
            if !set {
                proof {
                    assert(!answers(has_flag, self.requires@[i as int]@, true)) by {
                        if answers(has_flag, self.requires@[i as int]@, true) {
                            let s = choose|s: &str|
                                s@ == self.requires@[i as int]@ && call_ensures(
                                    has_flag,
                                    (s,),
                                    true,
                                );
                            assert(call_ensures(has_flag, (name,), false));
                        }
                    }
                }
                return false;
            }
            assert(answers(has_flag, self.requires@[i as int]@, true));
            i = i + 1;
        }
        let mut j: usize = 0;
        while j < self.excludes.len()
            invariant
                is_lookup(has_flag),
                i == self.requires@.len(),
                forall|k: int| 0 <= k < i ==> answers(has_flag, self.requires@[k]@, true),
                j <= self.excludes@.len(),
                forall|k: int| 0 <= k < j ==> answers(has_flag, self.excludes@[k]@, false),
            decreases self.excludes.len() - j,
        {
            let name = self.excludes[j].as_str();
            let set = has_flag(name);
            if set {
                proof {
                    assert(!answers(has_flag, self.excludes@[j as int]@, false)) by {
                        if answers(has_flag, self.excludes@[j as int]@, false) {
                            let s = choose|s: &str|
                                s@ == self.excludes@[j as int]@ && call_ensures(
                                    has_flag,
                                    (s,),
                                    false,
                                );
                            assert(call_ensures(has_flag, (name,), true));
                        }
                    }
                }
                return false;
            }
            assert(answers(has_flag, self.excludes@[j as int]@, false));
            j = j + 1;
        }
        true
    }
}

} // verus!
