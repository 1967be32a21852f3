//! What the battle's command panel shows: its title and its four rows, for the command menu, the
//! ability and item menus (a page of four at a time), and the victory rewards.

use vstd::prelude::*;

use crate::battle::input::command_at;
use crate::battle::model::{BattleCommand, BattlePhase, BattleState};
use crate::battle::resolver::castable_positions;
use crate::battle::rewards::summary;
use crate::text::{concat2, concat3, concat4, decimal, decimal_string};

verus! {

/// How a row's text is inked.
#[derive(Clone, Copy, Debug, PartialEq, Eq, Structural)]
pub enum RowTone {
    /// Ordinary, usable text.
    Ink,
    /// Unavailable or empty.
    Dim,
    /// The rewards headline.
    Gold,
}

/// One row of the panel.
#[derive(Clone, Debug, PartialEq, Eq)]
pub struct PanelRow {
    pub label: String,
    pub selected: bool,
    pub tone: RowTone,
}

/// The panel: a title over four rows.
#[derive(Clone, Debug, PartialEq, Eq)]
pub struct CommandPanel {
    pub title: String,
    pub rows: Vec<PanelRow>,
}

/// The panel's title: whose abilities or turn it is, the item bag, or the rewards.
pub open spec fn panel_title(state: BattleState) -> Seq<char> {
    let actor = match state.spec_active_key() {
        Some(k) => state.spec_actor(k),
        None => None,
    };
    if state.phase == BattlePhase::Ability {
        match actor {
            Some(a) => a.name@ + "'s Abilities"@,
            None => "Abilities"@,
        }
    } else if state.phase == BattlePhase::Item {
        "Battle Items"@
    } else if state.phase == BattlePhase::Rewards {
        "Victory Rewards"@
    } else {
        match actor {
            Some(a) => a.name@ + "'s Turn"@,
            None => "Command"@,
        }
    }
}

/// The first entry of the four-entry page holding `index`.
pub open spec fn page_start(index: usize) -> int {
    (index as int / 4) * 4
}

/// Whether row `i` is under the cursor.
pub open spec fn row_selected(state: BattleState, i: int) -> bool {
    (state.phase == BattlePhase::Command && i == state.command_index) || (state.phase
        == BattlePhase::Ability && page_start(state.ability_index) + i == state.ability_index) || (
    state.phase == BattlePhase::Item && page_start(state.item_index) + i == state.item_index)
}

/// The text and tone of row `i`: on the ability menu an ability with its cost (dim when it is
/// unaffordable); on the item menu an item with its count; on the rewards screen a summary line
/// (the first in gold); otherwise a command, marked `--` and dim when it is closed.
pub open spec fn row_look(state: BattleState, i: int) -> (Seq<char>, RowTone) {
    let actor = match state.spec_active_key() {
        Some(k) => state.spec_actor(k),
        None => None,
    };
    if state.phase == BattlePhase::Ability {
        let choices = match actor {
            Some(a) => castable_positions(a.abilities@),
            None => Seq::empty(),
        };
        let at = page_start(state.ability_index) + i;
        if at < choices.len() && actor is Some {
            let a = actor->0;
            let ab = a.abilities@[choices[at] as int];
            (
                ab.name@ + "  "@ + decimal(ab.mp_cost as nat) + " MP"@,
                if a.mana >= ab.mp_cost {
                    RowTone::Ink
                } else {
                    RowTone::Dim
                },
            )
        } else {
            (Seq::empty(), RowTone::Dim)
        }
    } else if state.phase == BattlePhase::Item {
        let at = page_start(state.item_index) + i;
        if at < state.item_choices@.len() {
            let c = state.item_choices@[at];
            (c.name@ + "  x"@ + decimal(c.quantity as nat), RowTone::Ink)
        } else {
            (Seq::empty(), RowTone::Dim)
        }
    } else if state.phase == BattlePhase::Rewards {
        let lines = match state.rewards {
            Some(r) => summary(r),
            None => Seq::empty(),
        };
        (
            if i < lines.len() {
                lines[i]
            } else {
                Seq::empty()
            },
            if i == 0 {
                RowTone::Gold
            } else {
                RowTone::Ink
            },
        )
    } else {
        let command = command_at(i);
        if state.spec_command_available(command) {
            (command.spec_label(), RowTone::Ink)
        } else {
            (command.spec_label() + "  --"@, RowTone::Dim)
        }
    }
}

fn row_text(state: &BattleState, i: usize, choices: &Vec<usize>, reward_lines: &Vec<String>) -> (r: (
    String,
    RowTone,
))
    requires
        i < 4,
        choices@ == match state.spec_active_key() {
            Some(k) => match state.spec_actor(k) {
                Some(a) => castable_positions(a.abilities@),
                None => Seq::<usize>::empty(),
            },
            None => Seq::<usize>::empty(),
        },
        reward_lines@.map_values(|l: String| l@) == match state.rewards {
            Some(r) => summary(r),
            None => Seq::<Seq<char>>::empty(),
        },
    ensures
        (r.0@, r.1) == row_look(*state, i as int),
{
    if state.phase == BattlePhase::Ability {
        let at = state.ability_index / 4 * 4 + i;
        let actor = state.active();
        match actor {
            Some(a) => {
                if at < choices.len() {
                    let index = choices[at];
                    proof {
                        assert(choices@ == castable_positions(a.abilities@));
                        lemma_castable_positions_in_range(a.abilities@, at as int);
                    }
                    let ab = &a.abilities[index];
                    let cost = decimal_string(ab.mp_cost as u64);
                    let label = concat4(ab.name.as_str(), "  ", cost.as_str(), " MP");
                    let tone = if a.mana >= ab.mp_cost {
                        RowTone::Ink
                    } else {
                        RowTone::Dim
                    };
                    (label, tone)
                } else {
                    (String::new(), RowTone::Dim)
                }
            },
            None => {
                assert(choices@.len() == 0);
                (String::new(), RowTone::Dim)
            },
        }
    } else if state.phase == BattlePhase::Item {
        let at = state.item_index / 4 * 4 + i;
        if at < state.item_choices.len() {
            let c = &state.item_choices[at];
            let count = decimal_string(c.quantity as u64);
            (concat3(c.name.as_str(), "  x", count.as_str()), RowTone::Ink)
        } else {
            (String::new(), RowTone::Dim)
        }
    } else if state.phase == BattlePhase::Rewards {
        let tone = if i == 0 {
            RowTone::Gold
        } else {
            RowTone::Ink
        };
        if i < reward_lines.len() {
            assert(reward_lines@.map_values(|l: String| l@)[i as int] == reward_lines@[i as int]@);
            (reward_lines[i].clone(), tone)
        } else {
            (String::new(), tone)
        }
    } else {
        let command = if i == 0 {
            BattleCommand::Attack
        } else if i == 1 {
            BattleCommand::Spell
        } else if i == 2 {
            BattleCommand::Item
        } else {
            BattleCommand::Run
        };
        if state.command_available(command) {
            (command.label().to_owned(), RowTone::Ink)
        } else {
            (concat2(command.label(), "  --"), RowTone::Dim)
        }
    }
}

/// Every position `castable_positions` lists lies within the abilities.
proof fn lemma_castable_positions_in_range(abilities: Seq<crate::scenario_class::Ability>, k: int)
    requires
        0 <= k < castable_positions(abilities).len(),
    ensures
        castable_positions(abilities)[k] < abilities.len(),
    decreases abilities.len(),
{
    let rest = castable_positions(abilities.drop_last());
    if k < rest.len() {
        lemma_castable_positions_in_range(abilities.drop_last(), k);
    }
}

/// The panel as the battle state shows it.
pub fn command_panel(state: &BattleState) -> (r: CommandPanel)
    ensures
        r.title@ == panel_title(*state),
        r.rows@.len() == 4,
        forall|i: int|
            0 <= i < 4 ==> (#[trigger] r.rows@[i]).selected == row_selected(*state, i) && (
            r.rows@[i].label@, r.rows@[i].tone) == row_look(*state, i),
{
    let actor = state.active();
    let title = if state.phase == BattlePhase::Ability {
        match actor {
            Some(a) => concat2(a.name.as_str(), "'s Abilities"),
            None => "Abilities".to_owned(),
        }
    } else if state.phase == BattlePhase::Item {
        "Battle Items".to_owned()
    } else if state.phase == BattlePhase::Rewards {
        "Victory Rewards".to_owned()
    } else {
        match actor {
            Some(a) => concat2(a.name.as_str(), "'s Turn"),
            None => "Command".to_owned(),
        }
    };
    let choices = state.battle_ability_indices();
    let reward_lines: Vec<String> = match &state.rewards {
        Some(r) => r.summary_lines(),
        None => {
            let v: Vec<String> = Vec::new();
            assert(v@.map_values(|l: String| l@) =~= Seq::<Seq<char>>::empty());
            v
        },
    };
    let mut rows: Vec<PanelRow> = Vec::new();
    let mut i: usize = 0;
    while i < 4
        invariant
            i <= 4,
            rows@.len() == i,
            choices@ == match state.spec_active_key() {
                Some(k) => match state.spec_actor(k) {
                    Some(a) => castable_positions(a.abilities@),
                    None => Seq::<usize>::empty(),
                },
                None => Seq::<usize>::empty(),
            },
            reward_lines@.map_values(|l: String| l@) == match state.rewards {
                Some(r) => summary(r),
                None => Seq::<Seq<char>>::empty(),
            },
            forall|k: int|
                0 <= k < i ==> (#[trigger] rows@[k]).selected == row_selected(*state, k) && (
                rows@[k].label@, rows@[k].tone) == row_look(*state, k),
        decreases 4 - i,
    {
        let selected = (state.phase == BattlePhase::Command && i == state.command_index) || (
        state.phase == BattlePhase::Ability && state.ability_index / 4 * 4 + i
            == state.ability_index) || (state.phase == BattlePhase::Item && state.item_index / 4 * 4
            + i == state.item_index);
        let (label, tone) = row_text(state, i, &choices, &reward_lines);
        rows.push(PanelRow { label, selected, tone });
        i = i + 1;
    }
    CommandPanel { title, rows }
}


/// The caption naming the combatant under the target cursor, empty when nothing is targeted.
pub open spec fn target_caption_text(state: BattleState) -> Seq<char> {
    match state.target {
        Some(t) => match state.spec_actor(t.eligible@[t.selected as int]) {
            Some(a) => "Target  "@ + a.name@,
            None => Seq::empty(),
        },
        None => Seq::empty(),
    }
}

/// The caption naming the combatant under the target cursor.
pub fn target_caption(state: &BattleState) -> (r: String)
    requires
        state.target matches Some(t) ==> t.well_formed(),
    ensures
        r@ == target_caption_text(*state),
{
    match &state.target {
        Some(t) => match state.actor(t.selected()) {
            Some(a) => concat2("Target  ", a.name.as_str()),
            None => String::new(),
        },
        None => String::new(),
    }
}

/// Which pool a party meter shows.
#[derive(Clone, Copy, Debug, PartialEq, Eq, Structural)]
pub enum MeterKind {
    Health,
    Mana,
}

/// A meter's caption: `HP value/maximum` or `MP value/maximum`.
pub fn meter_label(kind: MeterKind, value: u32, maximum: u32) -> (r: String)
    ensures
        r@ == match kind {
            MeterKind::Health => "HP "@,
            MeterKind::Mana => "MP "@,
        } + decimal(value as nat) + "/"@ + decimal(maximum as nat),
{
    let label = match kind {
        MeterKind::Health => "HP ",
        MeterKind::Mana => "MP ",
    };
    let v = decimal_string(value as u64);
    let m = decimal_string(maximum as u64);
    concat4(label, v.as_str(), "/", m.as_str())
}

} // verus!
