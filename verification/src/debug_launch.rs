//! Debug launch options: a start map and position, a party preset, and session flag overrides.
//!
//! Any active option starts the game directly in the world, and none of them is saved until an
//! explicit manual save.

use vstd::prelude::*;

use crate::scenario_transport::Position;
use crate::scenario_validation_baseline::{
    lemma_line_le_antisymmetric, lemma_line_le_total, lemma_line_le_transitive, line_in_order,
    line_le,
};
use crate::text::str_equals;

verus! {

/// A ready-made debug party.
#[derive(Clone, Copy, Debug, PartialEq, Eq, Structural)]
pub enum DebugPartyPreset {
    /// The hero alone.
    Solo,
    /// The full party.
    Full,
}

/// The flag overrides seen as keys and values.
pub open spec fn entry_views(v: Seq<(String, bool)>) -> Seq<(Seq<char>, bool)> {
    Seq::new(v.len(), |i: int| (v[i].0@, v[i].1))
}

/// The keys of `s` are strictly ascending in `String` order, so none occurs twice.
pub open spec fn keys_ascending(s: Seq<(Seq<char>, bool)>) -> bool {
    forall|i: int, j: int|
        0 <= i < j < s.len() ==> line_le(#[trigger] s[i].0, #[trigger] s[j].0) && s[i].0 != s[j].0
}

/// The map from flag to value that the entries `s`, keyed uniquely, describe.
pub open spec fn overrides_map(s: Seq<(Seq<char>, bool)>) -> Map<Seq<char>, bool> {
    Map::new(
        |k: Seq<char>| exists|i: int| 0 <= i < s.len() && #[trigger] s[i].0 == k,
        |k: Seq<char>| exists|i: int| 0 <= i < s.len() && #[trigger] s[i].0 == k && s[i].1,
    )
}

/// Session-only flag overrides: each flag set (`true`) or unset (`false`) at most once, kept
/// in ascending flag order.
#[derive(Debug, PartialEq, Eq)]
pub struct FlagOverrides {
    entries: Vec<(String, bool)>,
}

impl View for FlagOverrides {
    type V = Map<Seq<char>, bool>;

    closed spec fn view(&self) -> Map<Seq<char>, bool> {
        overrides_map(entry_views(self.entries@))
    }
}

impl FlagOverrides {
    #[verifier::type_invariant]
    spec fn ascending(self) -> bool {
        keys_ascending(entry_views(self.entries@))
    }

    /// The overrides in ascending flag order.
    pub closed spec fn ordered(&self) -> Seq<(Seq<char>, bool)> {
        entry_views(self.entries@)
    }

    /// No overrides.
    pub fn new() -> (r: Self)
        ensures
            r@ == Map::<Seq<char>, bool>::empty(),
    {
        let r = FlagOverrides { entries: Vec::new() };
        assert(r@ =~= Map::<Seq<char>, bool>::empty());
        r
    }

    /// Whether there are no overrides.
    pub fn is_empty(&self) -> (r: bool)
        ensures
            r == (self@ == Map::<Seq<char>, bool>::empty()),
    {
        let r = self.entries.len() == 0;
        proof {
            if r {
                assert(self@ =~= Map::<Seq<char>, bool>::empty());
            } else {
                let k = entry_views(self.entries@)[0].0;
                assert(self@.dom().contains(k));
                assert(!Map::<Seq<char>, bool>::empty().dom().contains(k));
            }
        }
        r
    }

    /// The position of `flag` among the entries, if it is there.
    fn position(&self, flag: &str) -> (r: Option<usize>)
        ensures
            match r {
                Some(i) => i < self.entries@.len() && self.entries@[i as int].0@ == flag@,
                None => forall|i: int|
                    0 <= i < self.entries@.len() ==> self.entries@[i].0@ != flag@,
            },
    {
        let mut i: usize = 0;
        while i < self.entries.len()
            invariant
                i <= self.entries@.len(),
                forall|k: int| 0 <= k < i ==> self.entries@[k].0@ != flag@,
            decreases self.entries@.len() - i,
        {
            if str_equals(self.entries[i].0.as_str(), flag) {
                return Some(i);
            }
            i = i + 1;
        }
        None
    }

    /// The override of `flag`, if there is one.
    pub fn get(&self, flag: &str) -> (r: Option<bool>)
        ensures
            r == self@.index_opt(flag@),
    {
        proof {
            use_type_invariant(self);
        }
        let ghost s = entry_views(self.entries@);
        match self.position(flag) {
            Some(i) => {
                proof {
                    assert(s[i as int].0 == flag@);
                    assert(self@.dom().contains(flag@));
                    if self.entries@[i as int].1 {
                        assert(self@[flag@]);
                    } else {
                        assert forall|j: int| 0 <= j < s.len() && s[j].0 == flag@ implies !s[j].1 by {
                            if j != i {
                                if j < i {
                                    assert(s[j].0 != s[i as int].0);
                                } else {
                                    assert(s[i as int].0 != s[j].0);
                                }
                            }
                        }
                        assert(!self@[flag@]);
                    }
                }
                Some(self.entries[i].1)
            },
            None => {
                assert(!self@.dom().contains(flag@));
                None
            },
        }
    }

    /// Whether `flag` has an override.
    pub fn contains(&self, flag: &str) -> (r: bool)
        ensures
            r == self@.dom().contains(flag@),
    {
        let r = self.get(flag);
        r.is_some()
    }

    /// Sets the override of `flag` to `value`, replacing any earlier one.
    pub fn insert(&mut self, flag: String, value: bool)
        ensures
            final(self)@ == old(self)@.insert(flag@, value),
    {
        proof {
            use_type_invariant(&*self);
        }
        let mut entries: Vec<(String, bool)> = Vec::new();
        std::mem::swap(&mut entries, &mut self.entries);
        let ghost s = entry_views(entries@);
        let ghost k = flag@;
        let mut pos: usize = 0;
        while pos < entries.len() && !line_in_order(flag.as_str(), entries[pos].0.as_str())
            invariant
                pos <= entries@.len(),
                s == entry_views(entries@),
                k == flag@,
                forall|j: int| 0 <= j < pos ==> !line_le(k, #[trigger] s[j].0),
            decreases entries@.len() - pos,
        {
            pos = pos + 1;
        }
        let replace = pos < entries.len() && str_equals(entries[pos].0.as_str(), flag.as_str());
        if replace {
            entries.set(pos, (flag, value));
            proof {
                let ns = entry_views(entries@);
                assert(ns =~= s.update(pos as int, (k, value)));
                assert forall|i: int, j: int| 0 <= i < j < ns.len() implies line_le(
                    #[trigger] ns[i].0,
                    #[trigger] ns[j].0,
                ) && ns[i].0 != ns[j].0 by {
                    assert(line_le(s[i].0, s[j].0) && s[i].0 != s[j].0);
                }
                assert forall|q: Seq<char>| #[trigger]
                    overrides_map(ns).dom().contains(q) == overrides_map(s).insert(
                        k,
                        value,
                    ).dom().contains(q) by {
                    if exists|i: int| 0 <= i < s.len() && s[i].0 == q {
                        let i = choose|i: int| 0 <= i < s.len() && s[i].0 == q;
                        assert(ns[i].0 == q);
                    }
                    if q == k {
                        assert(ns[pos as int].0 == q);
                    }
                }
                assert forall|q: Seq<char>| overrides_map(ns).dom().contains(q) implies #[trigger]
                    overrides_map(ns)[q] == overrides_map(s).insert(k, value)[q] by {
                    if q == k {
                        assert(ns[pos as int].0 == q);
                        assert forall|j: int| 0 <= j < ns.len() && ns[j].0 == q implies j
                            == pos by {
                            if j < pos {
                                assert(ns[j].0 != ns[pos as int].0);
                            } else if j > pos {
                                assert(ns[pos as int].0 != ns[j].0);
                            }
                        }
                    } else {
                        if exists|i: int| 0 <= i < ns.len() && ns[i].0 == q && ns[i].1 {
                            let i = choose|i: int| 0 <= i < ns.len() && ns[i].0 == q && ns[i].1;
                            assert(s[i].0 == q && s[i].1);
                        }
                        if exists|i: int| 0 <= i < s.len() && s[i].0 == q && s[i].1 {
                            let i = choose|i: int| 0 <= i < s.len() && s[i].0 == q && s[i].1;
                            assert(ns[i].0 == q && ns[i].1);
                        }
                    }
                }
                assert(overrides_map(ns) =~= overrides_map(s).insert(k, value));
            }
        } else {
            proof {
                if pos < s.len() {
                    assert(line_le(k, s[pos as int].0));
                    assert(s[pos as int].0 != k);
                }
            }
            entries.insert(pos, (flag, value));
            proof {
                let ns = entry_views(entries@);
                assert(ns =~= s.insert(pos as int, (k, value)));
                assert forall|j: int| 0 <= j < pos implies line_le(#[trigger] s[j].0, k) && s[j].0
                    != k by {
                    lemma_line_le_total(k, s[j].0);
                    if s[j].0 == k {
                        lemma_line_le_total(k, k);
                    }
                }
                assert forall|j: int| pos < j < s.len() implies line_le(k, #[trigger] s[j].0)
                    && s[j].0 != k by {
                    assert(line_le(s[pos as int].0, s[j].0) && s[pos as int].0 != s[j].0);
                    lemma_line_le_transitive(k, s[pos as int].0, s[j].0);
                    if s[j].0 == k {
                        lemma_line_le_antisymmetric(k, s[pos as int].0);
                    }
                }
                assert forall|i: int, j: int| 0 <= i < j < ns.len() implies line_le(
                    #[trigger] ns[i].0,
                    #[trigger] ns[j].0,
                ) && ns[i].0 != ns[j].0 by {
                    if j < pos {
                        assert(line_le(s[i].0, s[j].0) && s[i].0 != s[j].0);
                    } else if j == pos {
                    } else if i < pos {
                        assert(line_le(s[i].0, s[j - 1].0) && s[i].0 != s[j - 1].0);
                    } else if i == pos {
                    } else {
                        assert(line_le(s[i - 1].0, s[j - 1].0) && s[i - 1].0 != s[j - 1].0);
                    }
                }
                assert forall|q: Seq<char>| #[trigger]
                    overrides_map(ns).dom().contains(q) == overrides_map(s).insert(
                        k,
                        value,
                    ).dom().contains(q) by {
                    if exists|i: int| 0 <= i < s.len() && s[i].0 == q {
                        let i = choose|i: int| 0 <= i < s.len() && s[i].0 == q;
                        if i < pos {
                            assert(ns[i].0 == q);
                        } else {
                            assert(ns[i + 1].0 == q);
                        }
                    }
                    if exists|i: int| 0 <= i < ns.len() && ns[i].0 == q {
                        let i = choose|i: int| 0 <= i < ns.len() && ns[i].0 == q;
                        if i < pos {
                            assert(s[i].0 == q);
                        } else if i > pos {
                            assert(s[i - 1].0 == q);
                        }
                    }
                    if q == k {
                        assert(ns[pos as int].0 == q);
                    }
                }
                assert forall|q: Seq<char>| overrides_map(ns).dom().contains(q) implies #[trigger]
                    overrides_map(ns)[q] == overrides_map(s).insert(k, value)[q] by {
                    if q == k {
                        assert(ns[pos as int].0 == q);
                        assert forall|j: int| 0 <= j < ns.len() && ns[j].0 == q implies j
                            == pos by {
                            if j < pos {
                                assert(ns[j].0 != ns[pos as int].0);
                            } else if j > pos {
                                assert(ns[pos as int].0 != ns[j].0);
                            }
                        }
                    } else {
                        if exists|i: int| 0 <= i < ns.len() && ns[i].0 == q && ns[i].1 {
                            let i = choose|i: int| 0 <= i < ns.len() && ns[i].0 == q && ns[i].1;
                            if i < pos {
                                assert(s[i].0 == q && s[i].1);
                            } else {
                                assert(s[i - 1].0 == q && s[i - 1].1);
                            }
                        }
                        if exists|i: int| 0 <= i < s.len() && s[i].0 == q && s[i].1 {
                            let i = choose|i: int| 0 <= i < s.len() && s[i].0 == q && s[i].1;
                            if i < pos {
                                assert(ns[i].0 == q && ns[i].1);
                            } else {
                                assert(ns[i + 1].0 == q && ns[i + 1].1);
                            }
                        }
                    }
                }
                assert(overrides_map(ns) =~= overrides_map(s).insert(k, value));
            }
        }
        self.entries = entries;
    }

    /// The overrides in ascending flag order, as the session log lists them.
    pub fn entries(&self) -> (r: Vec<(String, bool)>)
        ensures
            entry_views(r@) == self.ordered(),
            keys_ascending(entry_views(r@)),
            overrides_map(entry_views(r@)) == self@,
    {
        proof {
            use_type_invariant(self);
        }
        let mut out: Vec<(String, bool)> = Vec::new();
        let mut i: usize = 0;
        while i < self.entries.len()
            invariant
                i <= self.entries@.len(),
                out@.len() == i,
                entry_views(out@) == entry_views(self.entries@).take(i as int),
            decreases self.entries@.len() - i,
        {
            let flag = self.entries[i].0.clone();
            let value = self.entries[i].1;
            out.push((flag, value));
            assert(entry_views(out@) =~= entry_views(self.entries@).take(i + 1));
            i = i + 1;
        }
        assert(entry_views(self.entries@).take(i as int) =~= entry_views(self.entries@));
        out
    }
}

/// Options that start a session directly in the world.
#[derive(Debug, PartialEq, Eq)]
pub struct DebugLaunchConfig {
    /// The map to start on; given together with `start_position`.
    pub start_map: Option<String>,
    /// The tile to start at; given together with `start_map`.
    pub start_position: Option<Position>,
    /// The debug party to start with.
    pub party_preset: Option<DebugPartyPreset>,
    /// Story flags set or unset for this session.
    pub flag_overrides: FlagOverrides,
}

impl DebugLaunchConfig {
    /// Whether any option is given.
    pub open spec fn active(&self) -> bool {
        self.start_map is Some || self.start_position is Some || self.party_preset is Some
            || self.flag_overrides@ != Map::<Seq<char>, bool>::empty()
    }

    /// No options at all.
    pub fn new() -> (r: Self)
        ensures
            r.start_map is None,
            r.start_position is None,
            r.party_preset is None,
            r.flag_overrides@ == Map::<Seq<char>, bool>::empty(),
    {
        DebugLaunchConfig {
            start_map: None,
            start_position: None,
            party_preset: None,
            flag_overrides: FlagOverrides::new(),
        }
    }

    /// Whether any option is given, so that the session skips the title screen.
    pub fn is_active(&self) -> (r: bool)
        ensures
            r == self.active(),
    {
        self.start_map.is_some() || self.start_position.is_some() || self.party_preset.is_some()
            || !self.flag_overrides.is_empty()
    }
}

impl Default for DebugLaunchConfig {
    /// No options at all.
    fn default() -> (r: Self)
        ensures
            r.start_map is None,
            r.start_position is None,
            r.party_preset is None,
            r.flag_overrides@ == Map::<Seq<char>, bool>::empty(),
    {
        DebugLaunchConfig::new()
    }
}

} // verus!
