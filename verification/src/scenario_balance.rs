//! Scenario-wide balance constants.
//!
//! A scenario has one balance document with five required groups and eleven required scalar
//! fields. [`BalanceData::default`] records the complete fallback set that applies when no
//! document is supplied.

use vstd::prelude::*;

use crate::scenario_class::{PositiveFinite, UnitInterval};

verus! {

/// A positive `u32` scalar.
#[derive(Clone, Copy, Debug, PartialEq, Eq, Structural)]
pub struct PositiveInteger {
    value: u32,
}

impl PositiveInteger {
    #[verifier::type_invariant]
    spec fn nonzero(self) -> bool {
        self.value > 0
    }

    /// The wrapped value.
    pub closed spec fn value(self) -> nat {
        self.value as nat
    }

    /// Accepts any nonzero value.
    pub fn new(value: u32) -> (r: Option<Self>)
        ensures
            r.is_some() <==> value > 0,
            r matches Some(p) ==> p.value() == value,
    {
        if value > 0 {
            Some(PositiveInteger { value })
        } else {
            None
        }
    }

    /// The wrapped value.
    pub fn get(self) -> (r: u32)
        ensures
            r == self.value(),
            r > 0,
    {
        proof {
            use_type_invariant(&self);
        }
        self.value
    }

    /// Reads the underscore-separated integer spelling the source balance file uses
    /// (`1_000_000`): groups of ASCII digits joined by single underscores, with at least one
    /// underscore and none at either end. Any other text, a zero, or a value beyond `u32` is
    /// refused.
    pub fn from_source_spelling(text: &str) -> (r: Option<Self>)
        ensures
            r.is_some() <==> (is_source_integer(text@) && 0 < digits_value(text@) <= u32::MAX),
            r matches Some(p) ==> p.value() == digits_value(text@),
    {
        let n = text.unicode_len();
        let mut i: usize = 0;
        let mut value: u64 = 0;
        let mut overflow = false;
        let mut shape_ok = n > 0;
        let mut saw_underscore = false;
        while i < n
            invariant
                n == text@.len(),
                0 <= i <= n,
                shape_ok == (n > 0 && shape_prefix_ok(text@, i as int)),
                saw_underscore == text@.subrange(0, i as int).contains('_'),
                !overflow ==> value == digits_value(text@.subrange(0, i as int)),
                !overflow ==> value <= u32::MAX,
                overflow ==> digits_value(text@.subrange(0, i as int)) > u32::MAX,
            decreases n - i,
        {
            let c = text.get_char(i);
            let ghost before = text@.subrange(0, i as int);
            let ghost after = text@.subrange(0, i + 1);
            assert(after.drop_last() == before);
            assert(after.last() == c);
            if c == '_' {
                saw_underscore = true;
                if i == 0 || i + 1 == n || text.get_char(i - 1) == '_' {
                    shape_ok = false;
                }
            } else if c < '0' || c > '9' {
                shape_ok = false;
            } else if !overflow {
                let digit = (c as u32 - '0' as u32) as u64;
                value = value * 10 + digit;
                if value > u32::MAX as u64 {
                    overflow = true;
                }
            }
            proof {
                assert(after.contains('_') <==> (before.contains('_') || c == '_')) by {
                    if c == '_' {
                        assert(after[i as int] == '_');
                    }
                    if after.contains('_') && c != '_' {
                        let k = choose|k: int| 0 <= k < after.len() && after[k] == '_';
                        assert(before[k] == '_');
                    }
                }
            }
            i = i + 1;
        }
        assert(text@.subrange(0, n as int) == text@);
        if shape_ok && saw_underscore && !overflow && value > 0 {
            Some(PositiveInteger { value: value as u32 })
        } else {
            None
        }
    }
}

/// Complete scenario-wide balance data.
#[derive(Clone, Debug, PartialEq, Eq, Structural)]
pub struct BalanceData {
    pub progression: ProgressionBalance,
    pub economy: EconomyBalance,
    pub battle: BattleBalance,
    pub spawner: SpawnerBalance,
    pub movement: MovementBalance,
}

/// Progression caps consumed by level and experience systems.
#[derive(Clone, Copy, Debug, PartialEq, Eq, Structural)]
pub struct ProgressionBalance {
    pub level_cap: PositiveInteger,
    pub exp_cap: PositiveInteger,
}

/// Economy inventory limits.
#[derive(Clone, Copy, Debug, PartialEq, Eq, Structural)]
pub struct EconomyBalance {
    pub gp_cap: PositiveInteger,
    pub item_qty_cap: PositiveInteger,
    /// Zero is meaningful: it disables additional item tags while retaining the item system.
    pub max_tags_per_item: u32,
}

/// Battle escape probabilities.
#[derive(Clone, Copy, Debug, PartialEq, Eq, Structural)]
pub struct BattleBalance {
    pub flee_base_chance: UnitInterval,
    pub flee_rogue_dex_bonus: UnitInterval,
}

/// Field enemy-spawner modifiers.
#[derive(Clone, Copy, Debug, PartialEq, Eq, Structural)]
pub struct SpawnerBalance {
    /// Tiles removed from a chase range; zero preserves the baseline range.
    pub rogue_chase_reduction: u32,
    /// Tiles removed by the accessory; zero makes the accessory neutral.
    pub stealth_cloak_reduction: u32,
    /// Positive multiplier applied to spawn intervals.
    pub lure_charm_interval_mult: PositiveFinite,
}

/// Player field-movement configuration.
#[derive(Clone, Copy, Debug, PartialEq, Eq, Structural)]
pub struct MovementBalance {
    pub player_speed: PositiveInteger,
}

impl BalanceData {
    /// The fallback set: level cap 100, experience cap 1 000 000, GP cap 8 000 000, item
    /// quantity cap 100, five tags per item, flee base chance 0.30 with 0.02 per rogue
    /// dexterity, chase reduction 2, cloak reduction 3, lure interval multiplier 0.5, and
    /// player speed 5.
    pub fn fallback() -> (r: Self)
        ensures
            r.progression.level_cap.value() == 100,
            r.progression.exp_cap.value() == 1_000_000,
            r.economy.gp_cap.value() == 8_000_000,
            r.economy.item_qty_cap.value() == 100,
            r.economy.max_tags_per_item == 5,
            r.battle.flee_base_chance.value() == 3_000,
            r.battle.flee_rogue_dex_bonus.value() == 200,
            r.spawner.rogue_chase_reduction == 2,
            r.spawner.stealth_cloak_reduction == 3,
            r.spawner.lure_charm_interval_mult.value() == 5_000,
            r.movement.player_speed.value() == 5,
    {
        BalanceData {
            progression: ProgressionBalance {
                level_cap: PositiveInteger { value: 100 },
                exp_cap: PositiveInteger { value: 1_000_000 },
            },
            economy: EconomyBalance {
                gp_cap: PositiveInteger { value: 8_000_000 },
                item_qty_cap: PositiveInteger { value: 100 },
                max_tags_per_item: 5,
            },
            battle: BattleBalance {
                flee_base_chance: UnitInterval::new(3_000).unwrap(),
                flee_rogue_dex_bonus: UnitInterval::new(200).unwrap(),
            },
            spawner: SpawnerBalance {
                rogue_chase_reduction: 2,
                stealth_cloak_reduction: 3,
                lure_charm_interval_mult: PositiveFinite::new(5_000).unwrap(),
            },
            movement: MovementBalance { player_speed: PositiveInteger { value: 5 } },
        }
    }
}

impl Default for BalanceData {
    fn default() -> (r: Self)
        ensures
            r.progression.level_cap.value() == 100,
            r.progression.exp_cap.value() == 1_000_000,
            r.economy.gp_cap.value() == 8_000_000,
            r.economy.item_qty_cap.value() == 100,
            r.economy.max_tags_per_item == 5,
            r.battle.flee_base_chance.value() == 3_000,
            r.battle.flee_rogue_dex_bonus.value() == 200,
            r.spawner.rogue_chase_reduction == 2,
            r.spawner.stealth_cloak_reduction == 3,
            r.spawner.lure_charm_interval_mult.value() == 5_000,
            r.movement.player_speed.value() == 5,
    {
        Self::fallback()
    }
}

/// Whether a character is an ASCII decimal digit.
pub open spec fn is_digit(c: char) -> bool {
    '0' <= c <= '9'
}

/// The first `i` characters are digits or underscores, no underscore opens or closes the whole
/// text, and no two underscores touch.
pub open spec fn shape_prefix_ok(s: Seq<char>, i: int) -> bool {
    forall|k: int|
        0 <= k < i ==> (is_digit(#[trigger] s[k]) || (s[k] == '_' && k != 0 && k + 1 != s.len()
            && s[k - 1] != '_'))
}

/// The source integer spelling: digit groups joined by single underscores, at least one of them.
pub open spec fn is_source_integer(s: Seq<char>) -> bool {
    &&& s.len() > 0
    &&& shape_prefix_ok(s, s.len() as int)
    &&& s.contains('_')
}

/// Whether `g` is a nonempty run of digits.
pub open spec fn digit_group(g: Seq<char>) -> bool {
    g.len() > 0 && forall|k: int| 0 <= k < g.len() ==> is_digit(#[trigger] g[k])
}

/// The groups joined by single underscores.
pub open spec fn underscore_joined(groups: Seq<Seq<char>>) -> Seq<char>
    decreases groups.len(),
{
    if groups.len() == 0 {
        Seq::empty()
    } else if groups.len() == 1 {
        groups[0]
    } else {
        underscore_joined(groups.drop_last()) + seq!['_'] + groups.last()
    }
}

proof fn lemma_underscore_joined_shape(groups: Seq<Seq<char>>)
    requires
        groups.len() >= 1,
        forall|i: int| 0 <= i < groups.len() ==> digit_group(#[trigger] groups[i]),
    ensures
        ({
            let s = underscore_joined(groups);
            &&& s.len() > 0
            &&& is_digit(s[0])
            &&& is_digit(s[s.len() - 1])
            &&& forall|k: int|
                0 <= k < s.len() ==> is_digit(#[trigger] s[k]) || (s[k] == '_' && 0 < k < s.len() - 1
                    && is_digit(s[k - 1]) && is_digit(s[k + 1]))
        }),
    decreases groups.len(),
{
    if groups.len() == 1 {
        assert(digit_group(groups[0]));
    } else {
        let init = groups.drop_last();
        assert forall|i: int| 0 <= i < init.len() implies digit_group(#[trigger] init[i]) by {
            assert(init[i] == groups[i]);
        }
        lemma_underscore_joined_shape(init);
        let j = underscore_joined(init);
        let g = groups.last();
        assert(digit_group(groups[groups.len() - 1]));
        let s = underscore_joined(groups);
        assert(s == j + seq!['_'] + g);
        assert forall|k: int|
            0 <= k < s.len() implies is_digit(#[trigger] s[k]) || (s[k] == '_' && 0 < k < s.len() - 1
                && is_digit(s[k - 1]) && is_digit(s[k + 1])) by {
            if k < j.len() {
                assert(s[k] == j[k]);
                if k + 1 < j.len() {
                    assert(s[k + 1] == j[k + 1]);
                }
                if k > 0 {
                    assert(s[k - 1] == j[k - 1]);
                }
            } else if k == j.len() {
                assert(s[k - 1] == j[j.len() - 1]);
                assert(s[k + 1] == g[0]);
            } else {
                assert(s[k] == g[k - j.len() - 1]);
            }
        }
        assert(s[0] == j[0]);
        assert(s[s.len() - 1] == g[g.len() - 1]);
    }
}

/// Digit groups joined by single underscores, at least two of them, spell a source integer.
pub proof fn lemma_underscore_groups_are_source_integers(groups: Seq<Seq<char>>)
    requires
        groups.len() >= 2,
        forall|i: int| 0 <= i < groups.len() ==> digit_group(#[trigger] groups[i]),
    ensures
        is_source_integer(underscore_joined(groups)),
{
    lemma_underscore_joined_shape(groups);
    let init = groups.drop_last();
    assert forall|i: int| 0 <= i < init.len() implies digit_group(#[trigger] init[i]) by {
        assert(init[i] == groups[i]);
    }
    lemma_underscore_joined_shape(init);
    let s = underscore_joined(groups);
    let j = underscore_joined(init);
    assert(s == j + seq!['_'] + groups.last());
    assert(s[j.len() as int] == '_');
    assert(s.contains('_'));
    assert forall|k: int| 0 <= k < s.len() implies (is_digit(#[trigger] s[k]) || (s[k] == '_' && k
        != 0 && k + 1 != s.len() && s[k - 1] != '_')) by {
        if !is_digit(s[k]) {
            assert(is_digit(s[k - 1]));
        }
    }
}

/// The number the digits of `s` spell, underscores skipped.
pub open spec fn digits_value(s: Seq<char>) -> nat
    decreases s.len(),
{
    if s.len() == 0 {
        0
    } else if is_digit(s.last()) {
        digits_value(s.drop_last()) * 10 + (s.last() as nat - '0' as nat) as nat
    } else {
        digits_value(s.drop_last())
    }
}

} // verus!
