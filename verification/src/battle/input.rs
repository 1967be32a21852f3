//! The battle's input handling: one frame's semantic actions moved through the battle's phases —
//! the command menu, the ability and item menus, target selection, fleeing, and the screens that
//! close a battle.

use vstd::prelude::*;

use crate::action_input::{ActionState, AppAction};
use crate::battle::ability::{
    cast_refusal, pools_ok, resolve_ability, target_plan, AbilityError, AbilityTargetPlan,
};
use crate::battle::item::{battle_usable, item_refusal, resolve_item, ItemUseError};
use crate::battle::model::{
    collect_eligible, eligible_keys, BattleCommand, BattleCombatant, BattleItemChoice,
    BattlePhase, BattleSide, BattleState, CombatantKey, FleeOutcome, TargetGroup, TargetSelector,
};
use crate::battle::rules::{flee_chance, phase_after_flee_confirmation, roll_flee, wrap_index};
use crate::gameplay_rng::GameplayRng;
use crate::runtime_repository::RuntimeRepository;
use crate::scenario_balance::BalanceData;
use crate::scenario_item::{ConsumableEffect, ConsumableItem};
use crate::text::{concat2, concat3};
use crate::battle::rewards::{detail_text, gains_bounded, reward_error_text, BattleRewards, RewardError};

verus! {

/// A menu sound the input asks for.
#[derive(Clone, Copy, Debug, PartialEq, Eq, Structural)]
pub enum MenuSound {
    /// The cursor moved.
    Hover,
    /// A choice was accepted.
    Confirm,
    /// A choice was refused.
    Blocked,
    /// The party got away.
    Flee,
}

/// What the rest of the game must do after a frame of battle input.
#[derive(Clone, Copy, Debug, PartialEq, Eq, Structural)]
pub enum BattleInputOutcome {
    /// The battle goes on.
    Continue,
    /// The battle was won and confirmed: its rewards are to be applied.
    ClaimRewards,
    /// The battle is over and the party returns to the world.
    ReturnToWorld,
    /// The party was defeated.
    GameOver,
}

/// Every enemy's move list fits a `u32` count.
pub open spec fn moves_all_bounded(cs: Seq<BattleCombatant>) -> bool {
    forall|i: int| 0 <= i < cs.len() ==> crate::battle::enemy_ai::moves_bounded(#[trigger] cs[i])
}

/// The menu cursors, the bag, and the turn order are as they were.
pub open spec fn menus_kept(after: BattleState, before: BattleState) -> bool {
    &&& after.turn_order == before.turn_order
    &&& after.active_turn == before.active_turn
    &&& after.turn_count == before.turn_count
    &&& after.command_index == before.command_index
    &&& after.ability_index == before.ability_index
    &&& after.item_index == before.item_index
    &&& after.item_choices == before.item_choices
}

/// Confirm, or Right, accepts a command or a sub-menu choice.
pub open spec fn confirms(actions: ActionState) -> bool {
    actions.began(AppAction::Confirm) || actions.began(AppAction::Right)
}

/// Back, or Left, backs out of a sub-menu.
pub open spec fn cancels(actions: ActionState) -> bool {
    actions.began(AppAction::Back) || actions.began(AppAction::Left)
}

/// Vertical menu navigation this frame: Up wins over Down.
pub open spec fn vertical_step(actions: ActionState) -> Option<isize> {
    if actions.began(AppAction::Up) {
        Some(-1isize)
    } else if actions.began(AppAction::Down) {
        Some(1isize)
    } else {
        None
    }
}

/// One step through a target pool: Up or Left steps back, Down or Right forward.
pub open spec fn target_step(actions: ActionState) -> Option<isize> {
    match vertical_step(actions) {
        Some(m) => Some(m),
        None => if actions.began(AppAction::Left) {
            Some(-1isize)
        } else if actions.began(AppAction::Right) {
            Some(1isize)
        } else {
            None
        },
    }
}

/// Whether this frame accepts a choice.
pub fn confirm_pressed(actions: &ActionState) -> (r: bool)
    ensures
        r == confirms(*actions),
{
    actions.just_pressed(AppAction::Confirm) || actions.just_pressed(AppAction::Right)
}

/// Whether this frame backs out of a sub-menu.
pub fn cancel_pressed(actions: &ActionState) -> (r: bool)
    ensures
        r == cancels(*actions),
{
    actions.just_pressed(AppAction::Back) || actions.just_pressed(AppAction::Left)
}

/// This frame's step through a target pool.
pub fn target_navigation(actions: &ActionState) -> (r: Option<isize>)
    ensures
        r == target_step(*actions),
{
    match actions.menu_navigation() {
        Some(m) => Some(m),
        None => actions.menu_navigation_horizontal(),
    }
}

/// The four commands, in menu order.
pub open spec fn command_at(index: int) -> BattleCommand {
    if index == 0 {
        BattleCommand::Attack
    } else if index == 1 {
        BattleCommand::Spell
    } else if index == 2 {
        BattleCommand::Item
    } else {
        BattleCommand::Run
    }
}

fn command_for(index: usize) -> (r: BattleCommand)
    ensures
        r == command_at(index as int),
{
    if index == 0 {
        BattleCommand::Attack
    } else if index == 1 {
        BattleCommand::Spell
    } else if index == 2 {
        BattleCommand::Item
    } else {
        BattleCommand::Run
    }
}

/// Whether any enemy is a boss.
pub open spec fn boss_present(cs: Seq<BattleCombatant>) -> bool {
    exists|i: int| 0 <= i < cs.len() && #[trigger] cs[i].key.side == BattleSide::Enemy && cs[i].boss
}

fn any_boss(cs: &Vec<BattleCombatant>) -> (r: bool)
    ensures
        r == boss_present(cs@),
{
    let mut i: usize = 0;
    while i < cs.len()
        invariant
            i <= cs@.len(),
            forall|k: int| 0 <= k < i ==> !(#[trigger] cs@[k].key.side == BattleSide::Enemy && cs@[k].boss),
        decreases cs@.len() - i,
    {
        if cs[i].key.side == BattleSide::Enemy && cs[i].boss {
            return true;
        }
        i = i + 1;
    }
    false
}

/// The message a flee attempt shows.
pub open spec fn flee_message(outcome: FleeOutcome) -> Seq<char> {
    match outcome {
        FleeOutcome::Success => "Got away safely! Press Enter."@,
        FleeOutcome::Failed => "Couldn't escape! Press Enter."@,
        FleeOutcome::Blocked => "Can't escape from a boss! Press Enter."@,
    }
}

/// The transcript line of a flee attempt.
pub open spec fn flee_line(outcome: FleeOutcome) -> Seq<char> {
    match outcome {
        FleeOutcome::Success => "FLEE Success"@,
        FleeOutcome::Failed => "FLEE Failed"@,
        FleeOutcome::Blocked => "FLEE Blocked"@,
    }
}

/// How an escape attempt from `cs` ends, and the generator state after it, from state `s`:
/// a boss blocks it and a certain chance succeeds, both without a draw; otherwise one draw
/// decides.
pub open spec fn flee_roll(cs: Seq<BattleCombatant>, balance: BalanceData, s: u64) -> (FleeOutcome, u64) {
    let chance = crate::battle::rules::spec_flee_chance(cs, balance);
    if boss_present(cs) {
        (FleeOutcome::Blocked, s)
    } else if chance >= crate::scenario_class::MYRIAD {
        (FleeOutcome::Success, s)
    } else if crate::battle::rules::roll_hits(crate::gameplay_rng::output(s), chance) {
        (FleeOutcome::Success, crate::gameplay_rng::next_state(s))
    } else {
        (FleeOutcome::Failed, crate::gameplay_rng::next_state(s))
    }
}

/// What an escape attempt does, from `before` to `after`, the generator from state `s0` to
/// `s1` and the sounds from `sounds0` to `sounds1`: refused while the balance data is loading;
/// otherwise the rolled outcome waits in the `Flee` phase, narrated and recorded.
pub open spec fn flee_attempted(
    before: BattleState,
    after: BattleState,
    balance: Option<&BalanceData>,
    s0: u64,
    s1: u64,
    sounds0: Seq<MenuSound>,
    sounds1: Seq<MenuSound>,
) -> bool {
    match balance {
        None => {
            &&& after == (BattleState { message: after.message, ..before })
            &&& after.message@ == "Battle balance is still loading."@
            &&& sounds1 == sounds0.push(MenuSound::Blocked)
            &&& s1 == s0
        },
        Some(b) => {
            let (outcome, s) = flee_roll(before.combatants@, *b, s0);
            &&& after == (BattleState {
                flee_outcome: Some(outcome),
                phase: BattlePhase::Flee,
                message: after.message,
                transcript: after.transcript,
                ..before
            })
            &&& s1 == s
            &&& after.message@ == flee_message(outcome)
            &&& after.transcript@ == before.transcript@.push(after.transcript@.last())
            &&& after.transcript@.last()@ == flee_line(outcome)
            &&& sounds1 == sounds0.push(
                if outcome == FleeOutcome::Success {
                    MenuSound::Flee
                } else {
                    MenuSound::Blocked
                },
            )
        },
    }
}

/// Tries to run: refused while the balance data is loading; otherwise one roll decides (a boss
/// always blocks), the outcome waits for Enter in the `Flee` phase, and the attempt is recorded.
pub fn attempt_flee(
    state: &mut BattleState,
    balance: Option<&BalanceData>,
    rng: &mut GameplayRng,
    sounds: &mut Vec<MenuSound>,
)
    ensures
        final(state).combatants == old(state).combatants,
        menus_kept(*final(state), *old(state)),
        flee_attempted(
            *old(state),
            *final(state),
            balance,
            old(rng).spec_state(),
            final(rng).spec_state(),
            old(sounds)@,
            final(sounds)@,
        ),
{
    let b = match balance {
        Some(b) => b,
        None => {
            state.message = "Battle balance is still loading.".to_owned();
            sounds.push(MenuSound::Blocked);
            return;
        },
    };
    let boss = any_boss(&state.combatants);
    let chance = flee_chance(state, b);
    let outcome = roll_flee(boss, chance, rng);
    state.flee_outcome = Some(outcome);
    state.phase = BattlePhase::Flee;
    state.message = match outcome {
        FleeOutcome::Success => "Got away safely! Press Enter.".to_owned(),
        FleeOutcome::Failed => "Couldn't escape! Press Enter.".to_owned(),
        FleeOutcome::Blocked => "Can't escape from a boss! Press Enter.".to_owned(),
    };
    match outcome {
        FleeOutcome::Success => sounds.push(MenuSound::Flee),
        _ => sounds.push(MenuSound::Blocked),
    }
    let line = match outcome {
        FleeOutcome::Success => "FLEE Success",
        FleeOutcome::Failed => "FLEE Failed",
        FleeOutcome::Blocked => "FLEE Blocked",
    };
    state.transcript.push(line.to_owned());
}

/// The first item of the catalog `items` with id `id`, when it has a battle use.
pub open spec fn battle_item_named(items: Seq<ConsumableItem>, id: Seq<char>) -> Option<ConsumableItem> {
    let i = first_item_index(items, id);
    if i < items.len() && battle_usable(items[i].effect) {
        Some(items[i])
    } else {
        None
    }
}

/// The position of the first item with id `id`, or the length when there is none.
pub open spec fn first_item_index(items: Seq<ConsumableItem>, id: Seq<char>) -> int
    decreases items.len(),
{
    if items.len() == 0 || items[0].id@ == id {
        0
    } else {
        1 + first_item_index(items.drop_first(), id)
    }
}

proof fn lemma_first_item_index_at(items: Seq<ConsumableItem>, id: Seq<char>, j: int)
    requires
        0 <= j <= items.len(),
        forall|k: int| 0 <= k < j ==> (#[trigger] items[k]).id@ != id,
        j == items.len() || items[j].id@ == id,
    ensures
        first_item_index(items, id) == j,
    decreases j,
{
    if j > 0 {
        lemma_first_item_index_at(items.drop_first(), id, j - 1);
    }
}

/// Looks up a battle item by id in the catalog.
fn find_battle_item<'a>(items: &'a [ConsumableItem], id: &str) -> (r: Option<&'a ConsumableItem>)
    ensures
        match battle_item_named(items@, id@) {
            Some(it) => r matches Some(x) && *x == it,
            None => r is None,
        },
{
    let mut j: usize = 0;
    while j < items.len() && !crate::text::str_equals(items[j].id.as_str(), id)
        invariant
            j <= items@.len(),
            forall|k: int| 0 <= k < j ==> (#[trigger] items@[k]).id@ != id@,
        decreases items@.len() - j,
    {
        j = j + 1;
    }
    proof {
        lemma_first_item_index_at(items@, id@, j as int);
    }
    if j == items.len() {
        return None;
    }
    let item = &items[j];
    let usable = match item.effect {
        ConsumableEffect::RestoreHp(_) | ConsumableEffect::RestoreMp(_)
        | ConsumableEffect::FullRecovery(_) | ConsumableEffect::Revive(_)
        | ConsumableEffect::Cure(_) => true,
        _ => false,
    };
    if usable {
        Some(item)
    } else {
        None
    }
}

/// What opening target selection for the battle item `item_id` of the catalog `items` does,
/// from `before` to `after`: the living party (or the fallen, for a revive) can be chosen;
/// an item with no battle use, or nobody to use it on, is refused with a message.
pub open spec fn item_targeting_begun(
    before: BattleState,
    after: BattleState,
    item_id: Seq<char>,
    items: Seq<ConsumableItem>,
) -> bool {
    match battle_item_named(items, item_id) {
        None => {
            &&& after == (BattleState { message: after.message, ..before })
            &&& after.message@ == "That item cannot be used in battle."@
        },
        Some(it) => {
            let keys = eligible_keys(before.combatants@, BattleSide::Party, it.effect is Revive);
            if keys.len() > 0 {
                &&& after == (BattleState {
                    target: after.target,
                    pending_item: after.pending_item,
                    phase: BattlePhase::Target,
                    message: after.message,
                    ..before
                })
                &&& after.pending_item matches Some(p) && p@ == item_id
                &&& after.target matches Some(t) && t.group == TargetGroup::Ally && t.selected == 0
                    && t.eligible@ == keys
                &&& after.message@ == "Choose a target. ESC cancels."@
            } else {
                &&& after == (BattleState { target: None, message: after.message, ..before })
                &&& after.message@ == "No valid target."@
            }
        },
    }
}

/// What a frame of input does to the item menu, from `before` to `after`: Back (or Left)
/// returns to the commands; Up and Down move through the bag; Confirm (or Right) starts the
/// item under the cursor.
pub open spec fn item_menu_step(
    before: BattleState,
    after: BattleState,
    actions: ActionState,
    items: Seq<ConsumableItem>,
) -> bool {
    if cancels(actions) {
        &&& after == (BattleState { phase: BattlePhase::Command, message: after.message, ..before })
        &&& after.message@ == "Action cancelled."@
    } else {
        let bag = before.item_choices@;
        let index = stepped(before.item_index, vertical_step(actions), bag.len()) as usize;
        let moved = BattleState { item_index: index, ..before };
        if confirms(actions) && index < bag.len() {
            item_targeting_begun(moved, after, bag[index as int].id@, items)
        } else {
            after == moved
        }
    }
}

/// Opens target selection for the battle item `item_id` of the catalog `items`: the living
/// party (or the fallen, for a revive).
pub fn begin_item_targeting(state: &mut BattleState, item_id: &str, items: &[ConsumableItem])
    ensures
        final(state).combatants == old(state).combatants,
        menus_kept(*final(state), *old(state)),
        final(state).transcript == old(state).transcript,
        item_targeting_begun(*old(state), *final(state), item_id@, items@),
        match battle_item_named(items@, item_id@) {
            None => final(state).message@ == "That item cannot be used in battle."@
                && final(state).phase == old(state).phase,
            Some(it) => {
                let keys = eligible_keys(old(state).combatants@, BattleSide::Party, it.effect is Revive);
                if keys.len() > 0 {
                    &&& final(state).phase == BattlePhase::Target
                    &&& final(state).pending_item matches Some(p) && p@ == item_id@
                    &&& final(state).target matches Some(t) && t.group == TargetGroup::Ally
                        && t.selected == 0 && t.eligible@ == keys
                    &&& final(state).message@ == "Choose a target. ESC cancels."@
                } else {
                    &&& final(state).phase == old(state).phase
                    &&& final(state).target is None
                    &&& final(state).message@ == "No valid target."@
                }
            },
        },
{
    let item = match find_battle_item(items, item_id) {
        Some(item) => item,
        None => {
            state.message = "That item cannot be used in battle.".to_owned();
            return;
        },
    };
    let revive = match item.effect {
        ConsumableEffect::Revive(_) => true,
        _ => false,
    };
    state.target = TargetSelector::new(TargetGroup::Ally, state.combatants.as_slice(), revive);
    if state.target.is_some() {
        state.pending_item = Some(item_id.to_owned());
        state.phase = BattlePhase::Target;
        state.message = "Choose a target. ESC cancels.".to_owned();
    } else {
        state.message = "No valid target.".to_owned();
    }
}

/// The message a refused item use shows.
pub open spec fn item_error_message(e: ItemUseError) -> Seq<char> {
    match e {
        ItemUseError::InvalidTarget => "No valid target."@,
        ItemUseError::Unavailable => "That item is no longer available."@,
        _ => "That item cannot be used here."@,
    }
}

/// The bag after one `id` is used: the first matching choice loses one (never below zero) and
/// the choices that are used up leave, the rest keeping their order.
pub open spec fn bag_after_use(choices: Seq<BattleItemChoice>, id: Seq<char>) -> Seq<BattleItemChoice> {
    still_held(used_one(choices, id))
}

/// The choices with the first one named `id` decremented.
pub open spec fn used_one(choices: Seq<BattleItemChoice>, id: Seq<char>) -> Seq<BattleItemChoice>
    decreases choices.len(),
{
    if choices.len() == 0 {
        choices
    } else if choices[0].id@ == id {
        choices.update(
            0,
            BattleItemChoice {
                quantity: if choices[0].quantity > 0 {
                    (choices[0].quantity - 1) as u32
                } else {
                    0
                },
                ..choices[0]
            },
        )
    } else {
        seq![choices[0]] + used_one(choices.drop_first(), id)
    }
}

/// The choices with some left, in order.
pub open spec fn still_held(choices: Seq<BattleItemChoice>) -> Seq<BattleItemChoice>
    decreases choices.len(),
{
    if choices.len() == 0 {
        choices
    } else {
        still_held(choices.drop_last()) + if choices.last().quantity > 0 {
            seq![choices.last()]
        } else {
            Seq::empty()
        }
    }
}

fn copy_choice(c: &BattleItemChoice) -> (r: BattleItemChoice)
    ensures
        r == *c,
{
    BattleItemChoice { id: c.id.clone(), name: c.name.clone(), quantity: c.quantity }
}

proof fn lemma_used_one_prefix(choices: Seq<BattleItemChoice>, id: Seq<char>, j: int)
    requires
        0 <= j < choices.len(),
        forall|k: int| 0 <= k < j ==> (#[trigger] choices[k]).id@ != id,
        choices[j].id@ == id,
    ensures
        used_one(choices, id) == choices.update(
            j,
            BattleItemChoice {
                quantity: if choices[j].quantity > 0 {
                    (choices[j].quantity - 1) as u32
                } else {
                    0
                },
                ..choices[j]
            },
        ),
    decreases j,
{
    if j > 0 {
        lemma_used_one_prefix(choices.drop_first(), id, j - 1);
        assert(used_one(choices, id) =~= choices.update(
            j,
            BattleItemChoice {
                quantity: if choices[j].quantity > 0 {
                    (choices[j].quantity - 1) as u32
                } else {
                    0
                },
                ..choices[j]
            },
        ));
    }
}

proof fn lemma_used_one_absent(choices: Seq<BattleItemChoice>, id: Seq<char>)
    requires
        forall|k: int| 0 <= k < choices.len() ==> (#[trigger] choices[k]).id@ != id,
    ensures
        used_one(choices, id) == choices,
    decreases choices.len(),
{
    if choices.len() > 0 {
        lemma_used_one_absent(choices.drop_first(), id);
        assert(seq![choices[0]] + choices.drop_first() =~= choices);
    }
}

/// Takes one `id` out of the bag of choices.
fn use_up_choice(choices: &mut Vec<BattleItemChoice>, id: &str)
    ensures
        final(choices)@ == bag_after_use(old(choices)@, id@),
{
    let ghost held = choices@;
    let mut j: usize = 0;
    while j < choices.len() && !crate::text::str_equals(choices[j].id.as_str(), id)
        invariant
            j <= choices@.len(),
            choices@ == held,
            forall|k: int| 0 <= k < j ==> (#[trigger] choices@[k]).id@ != id@,
        decreases choices@.len() - j,
    {
        j = j + 1;
    }
    let mut updated: Vec<BattleItemChoice> = Vec::new();
    let mut i: usize = 0;
    let ghost target = used_one(held, id@);
    proof {
        if j < held.len() {
            lemma_used_one_prefix(held, id@, j as int);
        } else {
            lemma_used_one_absent(held, id@);
        }
    }
    while i < choices.len()
        invariant
            i <= choices@.len(),
            choices@ == held,
            target.len() == held.len(),
            j <= held.len(),
            target == used_one(held, id@),
            forall|k: int| 0 <= k < held.len() && k != j ==> #[trigger] target[k] == held[k],
            j < held.len() ==> target[j as int].id == held[j as int].id && target[j as int].name
                == held[j as int].name && target[j as int].quantity == if held[j as int].quantity > 0 {
                (held[j as int].quantity - 1) as u32
            } else {
                0
            },
            updated@ == still_held(target.take(i as int)),
        decreases choices@.len() - i,
    {
        let mut c = copy_choice(&choices[i]);
        if i == j && c.quantity > 0 {
            c.quantity = c.quantity - 1;
        }
        assert(c == target[i as int]);
        assert(target.take(i + 1).drop_last() =~= target.take(i as int));
        if c.quantity > 0 {
            updated.push(c);
        }
        assert(updated@ =~= still_held(target.take(i + 1)));
        i = i + 1;
    }
    assert(target.take(i as int) =~= target);
    *choices = updated;
}

/// The item menu's cursor after the bag shrinks to `len` choices: kept where it was, or on the
/// last choice.
pub open spec fn clamped_item_index(index: usize, len: nat) -> usize {
    let last: usize = if len > 0 {
        (len - 1) as usize
    } else {
        0
    };
    if index < last {
        index
    } else {
        last
    }
}

/// What using the item `item_id` of the catalog `items` from `source` on `target` does, from
/// `before` to `after` and the inventory from `repo0` to `repo1`: a refusal goes back to the
/// item menu and says why; an accepted use takes one from the inventory and from the bag,
/// keeps the cursor in the bag, restores the target as the item says, and resolves.
#[verifier::opaque]
pub open spec fn item_chosen(
    before: BattleState,
    after: BattleState,
    source: CombatantKey,
    item_id: Seq<char>,
    target: CombatantKey,
    items: Seq<ConsumableItem>,
    repo0: RuntimeRepository,
    repo1: RuntimeRepository,
) -> bool {
    match battle_item_named(items, item_id) {
        None => {
            &&& after == (BattleState { phase: BattlePhase::Item, message: after.message, ..before })
            &&& after.message@ == "That item cannot be used in battle."@
            &&& repo1 == repo0
        },
        Some(it) => match item_refusal(before.combatants@, source, it, target, repo0.count(it.id@)) {
            Some(e) => {
                &&& after == (BattleState { phase: BattlePhase::Item, message: after.message, ..before })
                &&& after.message@ == item_error_message(e)
                &&& repo1 == repo0
            },
            None => {
                let cs = before.combatants@;
                let ti = crate::battle::resolver::first_index_of(cs, target);
                let t = cs[ti];
                let a = after.combatants@[ti];
                &&& after == (BattleState {
                    combatants: after.combatants,
                    phase: BattlePhase::Resolve,
                    message: after.message,
                    transcript: after.transcript,
                    feedback_events: after.feedback_events,
                    item_choices: after.item_choices,
                    item_index: after.item_index,
                    ..before
                })
                &&& repo1.count(it.id@) == repo0.count(it.id@) - 1
                &&& forall|other: Seq<char>| other != it.id@ ==> repo1.count(other) == repo0.count(other)
                &&& after.item_choices@ == bag_after_use(before.item_choices@, item_id)
                &&& after.item_index == clamped_item_index(before.item_index, after.item_choices@.len())
                &&& after.combatants@ == cs.update(ti, a)
                &&& a.key == t.key
                &&& exists|events: Seq<crate::battle::action::BattleEvent>|
                    #[trigger] crate::battle::item::item_effect_applied(t, a, it.effect, source, target, events)
                        && after.feedback_events@ == before.feedback_events@ + events
                &&& after.message@ == cs[crate::battle::resolver::first_index_of(cs, source)].name@
                    + " uses "@ + it.name@ + "!"@
                &&& after.transcript@ == before.transcript@.push(after.transcript@.last())
                &&& after.transcript@.last()@ == "ITEM "@ + cs[crate::battle::resolver::first_index_of(
                    cs,
                    source,
                )].id@ + " "@ + it.id@ + " "@ + crate::battle::ability::target_list(seq![target])
                &&& match it.effect {
                    ConsumableEffect::RestoreHp(e) => a.health == if t.health + e.restore_hp.value()
                        >= t.max_health {
                        t.max_health as int
                    } else {
                        t.health + e.restore_hp.value()
                    },
                    ConsumableEffect::RestoreMp(e) => a.mana == if t.mana + e.restore_mp.value()
                        >= t.max_mana {
                        t.max_mana as int
                    } else {
                        t.mana + e.restore_mp.value()
                    },
                    ConsumableEffect::FullRecovery(_) => a.health == t.max_health && a.mana
                        == t.max_mana,
                    _ => true,
                }
            },
        },
    }
}

/// Uses the item `item_id` from `source` on `target`: on success one leaves the bag; a refusal
/// goes back to the item menu and says why.
pub fn resolve_selected_item(
    state: &mut BattleState,
    source: CombatantKey,
    item_id: &str,
    target: CombatantKey,
    items: &[ConsumableItem],
    repository: &mut RuntimeRepository,
)
    requires
        pools_ok(old(state).combatants@),
        moves_all_bounded(old(state).combatants@),
    ensures
        pools_ok(final(state).combatants@),
        moves_all_bounded(final(state).combatants@),
        final(state).turn_order == old(state).turn_order,
        final(state).active_turn == old(state).active_turn,
        final(state).target == old(state).target,
        final(state).pending_ability == old(state).pending_ability,
        item_chosen(
            *old(state),
            *final(state),
            source,
            item_id@,
            target,
            items@,
            *old(repository),
            *final(repository),
        ),
        match battle_item_named(items@, item_id@) {
            None => {
                &&& final(state).combatants == old(state).combatants
                &&& final(state).phase == BattlePhase::Item
                &&& final(state).message@ == "That item cannot be used in battle."@
                &&& *final(repository) == *old(repository)
            },
            Some(it) => match item_refusal(old(state).combatants@, source, it, target, old(repository).count(it.id@)) {
                Some(e) => {
                    &&& final(state).combatants == old(state).combatants
                    &&& final(state).phase == BattlePhase::Item
                    &&& final(state).message@ == item_error_message(e)
                    &&& *final(repository) == *old(repository)
                },
                None => {
                    &&& final(state).phase == BattlePhase::Resolve
                    &&& final(repository).count(it.id@) == old(repository).count(it.id@) - 1
                    &&& final(state).item_choices@ == bag_after_use(old(state).item_choices@, item_id@)
                    &&& final(state).item_index == clamped_item_index(
                        old(state).item_index,
                        final(state).item_choices@.len(),
                    )
                },
            },
        },
{
    proof {
        reveal(item_chosen);
    }
    let item = match find_battle_item(items, item_id) {
        Some(item) => item,
        None => {
            state.phase = BattlePhase::Item;
            state.message = "That item cannot be used in battle.".to_owned();
            return;
        },
    };
    let ghost cs = state.combatants@;
    match resolve_item(state, source, item, target, repository) {
        Ok(_) => {
            proof {
                assert forall|j: int| 0 <= j < state.combatants@.len() implies crate::battle::enemy_ai::moves_bounded(#[trigger] state.combatants@[j]) by {
                    assert(crate::battle::enemy_ai::moves_bounded(cs[j]));
                }
            }
            use_up_choice(&mut state.item_choices, item_id);
            let len = state.item_choices.len();
            let last = if len > 0 { len - 1 } else { 0 };
            if state.item_index >= last {
                state.item_index = last;
            }
        },
        Err(error) => {
            state.phase = BattlePhase::Item;
            state.message = match error {
                ItemUseError::InvalidTarget => "No valid target.".to_owned(),
                ItemUseError::Unavailable => "That item is no longer available.".to_owned(),
                _ => "That item cannot be used here.".to_owned(),
            };
        },
    }
}

/// The message a refused ability shows.
pub open spec fn ability_error_message(e: AbilityError) -> Seq<char> {
    match e {
        AbilityError::InsufficientMana => "Not enough MP."@,
        AbilityError::Silenced => "Silence prevents spellcasting."@,
        AbilityError::InvalidTarget => "No valid target."@,
        _ => "That ability cannot be used here."@,
    }
}

/// What casting the ability chosen from the menu does, from `before` to `after`, the
/// generator from state `s0` to `s1`: a refused cast goes back to the ability menu and says
/// why; an accepted one resolves.
#[verifier::opaque]
pub open spec fn ability_chosen(
    before: BattleState,
    after: BattleState,
    caster: CombatantKey,
    index: int,
    targets: Seq<CombatantKey>,
    s0: u64,
    s1: u64,
) -> bool {
    match cast_refusal(before.combatants@, caster, index, targets) {
        Some(e) => {
            &&& after == (BattleState { phase: BattlePhase::Ability, message: after.message, ..before })
            &&& after.message@ == ability_error_message(e)
            &&& s1 == s0
        },
        None => crate::battle::ability::cast_resolved(before, after, caster, index, targets, s0, s1),
    }
}

/// Casts the `ability_index`th ability of `caster` on `targets`; a refusal goes back to the
/// ability menu and says why.
pub fn resolve_selected_ability(
    state: &mut BattleState,
    caster: CombatantKey,
    ability_index: usize,
    targets: &[CombatantKey],
    rng: &mut GameplayRng,
)
    requires
        pools_ok(old(state).combatants@),
        moves_all_bounded(old(state).combatants@),
    ensures
        pools_ok(final(state).combatants@),
        moves_all_bounded(final(state).combatants@),
        final(state).turn_order == old(state).turn_order,
        final(state).active_turn == old(state).active_turn,
        final(state).target == old(state).target,
        final(state).pending_ability == old(state).pending_ability,
        match cast_refusal(old(state).combatants@, caster, ability_index as int, targets@) {
            Some(e) => {
                &&& final(state).combatants == old(state).combatants
                &&& final(state).phase == BattlePhase::Ability
                &&& final(state).message@ == ability_error_message(e)
            },
            None => final(state).phase == BattlePhase::Resolve,
        },
        ability_chosen(
            *old(state),
            *final(state),
            caster,
            ability_index as int,
            targets@,
            old(rng).spec_state(),
            final(rng).spec_state(),
        ),
{
    proof {
        reveal(ability_chosen);
    }
    let ghost cs = state.combatants@;
    proof {
        crate::battle::resolver::lemma_first_index_of_bounds(cs, caster);
    }
    match resolve_ability(state, caster, ability_index, targets, rng) {
        Ok(_) => {
            proof {
                let ci = crate::battle::resolver::first_index_of(cs, caster);
                assert forall|j: int| 0 <= j < state.combatants@.len() implies crate::battle::enemy_ai::moves_bounded(#[trigger] state.combatants@[j]) by {
                    assert(state.combatants@[j].same_but_health_and_statuses(&cs.update(ci, BattleCombatant { mana: (cs[ci].mana - cs[ci].abilities@[ability_index as int].mp_cost) as u32, ..cs[ci] })[j]));
                    assert(crate::battle::enemy_ai::moves_bounded(cs[j]));
                }
            }
        },
        Err(error) => {
            state.phase = BattlePhase::Ability;
            state.message = match error {
                AbilityError::InsufficientMana => "Not enough MP.".to_owned(),
                AbilityError::Silenced => "Silence prevents spellcasting.".to_owned(),
                AbilityError::InvalidTarget => "No valid target.".to_owned(),
                _ => "That ability cannot be used here.".to_owned(),
            };
        },
    }
}


/// What starting ability `index` of the active combatant does, from `before` to `after`, the
/// generator from state `s0` to `s1`: nothing without an active combatant or such an ability;
/// refused for want of mana; a single-target ability opens target selection (or says there is
/// no valid target); one aimed at a whole side or at the caster is cast at once.
pub open spec fn ability_targeting_begun(
    before: BattleState,
    after: BattleState,
    index: int,
    s0: u64,
    s1: u64,
) -> bool {
    match before.spec_active_key() {
        None => after == before && s1 == s0,
        Some(k) => match before.spec_actor(k) {
            None => after == before && s1 == s0,
            Some(a) => if index >= a.abilities@.len() {
                after == before && s1 == s0
            } else {
                let ab = a.abilities@[index];
                let cs = before.combatants@;
                if a.mana < ab.mp_cost {
                    &&& after == (BattleState { message: after.message, ..before })
                    &&& after.message@ == "Not enough MP for "@ + ab.name@ + "."@
                    &&& s1 == s0
                } else {
                    match crate::battle::ability::spec_target_plan(ab) {
                        AbilityTargetPlan::Select { group, ko_eligible } => {
                            let keys = eligible_keys(cs, group.side(), ko_eligible);
                            &&& s1 == s0
                            &&& if keys.len() > 0 {
                                &&& after == (BattleState {
                                    target: after.target,
                                    pending_ability: Some(index as usize),
                                    phase: BattlePhase::Target,
                                    message: after.message,
                                    ..before
                                })
                                &&& after.target matches Some(t) && t.group == group && t.selected == 0
                                    && t.eligible@ == keys
                                &&& after.message@ == "Choose a target. ESC cancels."@
                            } else {
                                &&& after == (BattleState { target: None, message: after.message, ..before })
                                &&& after.message@ == "No valid target."@
                            }
                        },
                        AbilityTargetPlan::All { side, ko_eligible } => ability_chosen(
                            before,
                            after,
                            k,
                            index,
                            eligible_keys(cs, side, ko_eligible),
                            s0,
                            s1,
                        ),
                        AbilityTargetPlan::SelfTarget => ability_chosen(before, after, k, index, seq![k], s0, s1),
                    }
                }
            },
        },
    }
}

/// Starts the `ability_index`th ability of the active combatant: refused for want of mana; a
/// single-target ability opens target selection, and one aimed at a whole side or at the caster
/// is cast at once.
pub fn begin_ability_targeting(state: &mut BattleState, ability_index: usize, rng: &mut GameplayRng)
    requires
        pools_ok(old(state).combatants@),
        moves_all_bounded(old(state).combatants@),
    ensures
        pools_ok(final(state).combatants@),
        moves_all_bounded(final(state).combatants@),
        final(state).turn_order == old(state).turn_order,
        final(state).active_turn == old(state).active_turn,
        ability_targeting_begun(
            *old(state),
            *final(state),
            ability_index as int,
            old(rng).spec_state(),
            final(rng).spec_state(),
        ),
        match old(state).spec_active_key() {
            None => *final(state) == *old(state),
            Some(k) => match old(state).spec_actor(k) {
                None => *final(state) == *old(state),
                Some(a) => if ability_index >= a.abilities@.len() {
                    *final(state) == *old(state)
                } else {
                    let ab = a.abilities@[ability_index as int];
                    let cs = old(state).combatants@;
                    if a.mana < ab.mp_cost {
                        &&& final(state).combatants == old(state).combatants
                        &&& final(state).phase == old(state).phase
                        &&& final(state).message@ == "Not enough MP for "@ + ab.name@ + "."@
                    } else {
                        match crate::battle::ability::spec_target_plan(ab) {
                            AbilityTargetPlan::Select { group, ko_eligible } => {
                                let keys = eligible_keys(cs, group.side(), ko_eligible);
                                &&& final(state).combatants == old(state).combatants
                                &&& if keys.len() > 0 {
                                    &&& final(state).phase == BattlePhase::Target
                                    &&& final(state).pending_ability == Some(ability_index)
                                    &&& final(state).target matches Some(t) && t.group == group
                                        && t.selected == 0 && t.eligible@ == keys
                                    &&& final(state).message@ == "Choose a target. ESC cancels."@
                                } else {
                                    &&& final(state).phase == old(state).phase
                                    &&& final(state).target is None
                                    &&& final(state).message@ == "No valid target."@
                                }
                            },
                            AbilityTargetPlan::All { side, ko_eligible } => match cast_refusal(
                                cs,
                                k,
                                ability_index as int,
                                eligible_keys(cs, side, ko_eligible),
                            ) {
                                Some(e) => final(state).phase == BattlePhase::Ability
                                    && final(state).message@ == ability_error_message(e)
                                    && final(state).combatants == old(state).combatants,
                                None => final(state).phase == BattlePhase::Resolve,
                            },
                            AbilityTargetPlan::SelfTarget => match cast_refusal(
                                cs,
                                k,
                                ability_index as int,
                                seq![k],
                            ) {
                                Some(e) => final(state).phase == BattlePhase::Ability
                                    && final(state).message@ == ability_error_message(e)
                                    && final(state).combatants == old(state).combatants,
                                None => final(state).phase == BattlePhase::Resolve,
                            },
                        }
                    }
                },
            },
        },
{
    let caster = match state.active_key() {
        Some(k) => k,
        None => return,
    };
    let (mana, mp_cost, name, plan) = match state.actor(caster) {
        Some(a) => {
            if ability_index >= a.abilities.len() {
                return;
            }
            let ab = &a.abilities[ability_index];
            (a.mana, ab.mp_cost, ab.name.clone(), target_plan(ab))
        },
        None => return,
    };
    if mana < mp_cost {
        state.message = concat3("Not enough MP for ", name.as_str(), ".");
        return;
    }
    match plan {
        AbilityTargetPlan::Select { group, ko_eligible } => {
            state.target = TargetSelector::new(group, state.combatants.as_slice(), ko_eligible);
            if state.target.is_some() {
                state.pending_ability = Some(ability_index);
                state.phase = BattlePhase::Target;
                state.message = "Choose a target. ESC cancels.".to_owned();
            } else {
                state.message = "No valid target.".to_owned();
            }
        },
        AbilityTargetPlan::All { side, ko_eligible } => {
            let targets = collect_eligible(state.combatants.as_slice(), side, ko_eligible);
            resolve_selected_ability(state, caster, ability_index, targets.as_slice(), rng);
        },
        AbilityTargetPlan::SelfTarget => {
            let targets = vec![caster];
            assert(targets@ =~= seq![caster]);
            resolve_selected_ability(state, caster, ability_index, targets.as_slice(), rng);
        },
    }
}


/// Whether the active combatant has an ability it can use in battle.
pub open spec fn castable_exists(state: BattleState) -> bool {
    match state.spec_active_key() {
        Some(k) => match state.spec_actor(k) {
            Some(a) => exists|i: int|
                0 <= i < a.abilities@.len() && crate::battle::ability::spec_battle_ability(
                    #[trigger] a.abilities@[i],
                ),
            None => false,
        },
        None => false,
    }
}

/// The menu cursor after one step `step` through `len` entries, or where it was.
pub open spec fn stepped(index: usize, step: Option<isize>, len: nat) -> int {
    match step {
        Some(m) => (index as int + m as int) % (len as int),
        None => index as int,
    }
}

/// The message a refused command shows.
pub open spec fn unavailable_message(command: BattleCommand) -> Seq<char> {
    match command {
        BattleCommand::Spell => "No usable abilities."@,
        BattleCommand::Item => "No battle items available."@,
        BattleCommand::Run => "Can't escape from a boss!"@,
        BattleCommand::Attack => "That action is unavailable."@,
    }
}

/// What a frame of input asks of the rest of the game, by the phase it met.
pub open spec fn input_outcome(
    phase: BattlePhase,
    actions: ActionState,
    balance_loaded: bool,
    flee_outcome: Option<FleeOutcome>,
) -> BattleInputOutcome {
    let confirm = actions.began(AppAction::Confirm);
    match phase {
        BattlePhase::Victory => if confirm && balance_loaded {
            BattleInputOutcome::ClaimRewards
        } else {
            BattleInputOutcome::Continue
        },
        BattlePhase::Rewards => if confirm {
            BattleInputOutcome::ReturnToWorld
        } else {
            BattleInputOutcome::Continue
        },
        BattlePhase::Defeat => BattleInputOutcome::GameOver,
        BattlePhase::Flee => if confirm && flee_outcome == Some(FleeOutcome::Success) {
            BattleInputOutcome::ReturnToWorld
        } else {
            BattleInputOutcome::Continue
        },
        _ => BattleInputOutcome::Continue,
    }
}

/// What a frame of input does to the command menu, from `before` to `after`, the generator
/// from state `s0` to `s1`, with `sounds` played. Back tries to flee. Otherwise Up or Down
/// moves the cursor (with a hover sound); Confirm (or Right) then takes the command under it:
/// a command closed to the active combatant says why; Spell and Item open their menus; Attack
/// opens target selection over the living enemies, or assesses the battle when there are none;
/// Run tries to flee.
pub open spec fn command_menu_step(
    before: BattleState,
    after: BattleState,
    actions: ActionState,
    balance: Option<&BalanceData>,
    s0: u64,
    s1: u64,
    sounds: Seq<MenuSound>,
) -> bool {
    if actions.began(AppAction::Back) {
        flee_attempted(before, after, balance, s0, s1, Seq::empty(), sounds)
    } else {
        let index = stepped(before.command_index, vertical_step(actions), 4) as usize;
        let hover = if vertical_step(actions) is Some {
            seq![MenuSound::Hover]
        } else {
            Seq::empty()
        };
        let moved = BattleState { command_index: index, ..before };
        let command = command_at(index as int);
        if !confirms(actions) {
            after == moved && sounds == hover && s1 == s0
        } else if !moved.spec_command_available(command) {
            &&& after == (BattleState { message: after.message, ..moved })
            &&& after.message@ == unavailable_message(command)
            &&& sounds == hover.push(MenuSound::Blocked)
            &&& s1 == s0
        } else {
            let confirmed = hover.push(MenuSound::Confirm);
            match command {
                BattleCommand::Spell => {
                    &&& after == (BattleState {
                        ability_index: 0,
                        pending_ability: None,
                        phase: BattlePhase::Ability,
                        message: after.message,
                        ..moved
                    })
                    &&& after.message@ == "Choose an ability. ESC cancels."@
                    &&& sounds == confirmed
                    &&& s1 == s0
                },
                BattleCommand::Item => {
                    &&& after == (BattleState {
                        item_index: 0,
                        pending_item: None,
                        phase: BattlePhase::Item,
                        message: after.message,
                        ..moved
                    })
                    &&& after.message@ == "Choose an item. ESC cancels."@
                    &&& sounds == confirmed
                    &&& s1 == s0
                },
                BattleCommand::Attack => {
                    let keys = eligible_keys(before.combatants@, BattleSide::Enemy, false);
                    &&& sounds == confirmed
                    &&& s1 == s0
                    &&& if keys.len() > 0 {
                        &&& after == (BattleState {
                            target: after.target,
                            phase: BattlePhase::Target,
                            message: after.message,
                            ..moved
                        })
                        &&& after.target matches Some(t) && t.group == TargetGroup::Enemy
                            && t.eligible@ == keys && t.selected == 0
                        &&& after.message@ == "Choose a living enemy. ESC cancels."@
                    } else {
                        crate::battle::resolver::result_assessed(BattleState { target: None, ..moved }, after)
                    }
                },
                BattleCommand::Run => flee_attempted(moved, after, balance, s0, s1, confirmed, sounds),
            }
        }
    }
}

/// The command menu: Back tries to flee; Up and Down move the cursor; Confirm (or Right) takes
/// the command under it if it is open to the active combatant, and says why not otherwise.
pub fn handle_command_menu(
    state: &mut BattleState,
    actions: &ActionState,
    rng: &mut GameplayRng,
    balance: Option<&BalanceData>,
) -> (sounds: Vec<MenuSound>)
    requires
        pools_ok(old(state).combatants@),
        moves_all_bounded(old(state).combatants@),
        !actions.began(AppAction::Back) && confirms(*actions) && vertical_step(*actions) is None
            ==> old(state).command_index < 4,
    ensures
        pools_ok(final(state).combatants@),
        moves_all_bounded(final(state).combatants@),
        final(state).turn_order == old(state).turn_order,
        command_menu_step(
            *old(state),
            *final(state),
            *actions,
            balance,
            old(rng).spec_state(),
            final(rng).spec_state(),
            sounds@,
        ),
{
    let mut sounds: Vec<MenuSound> = Vec::new();
    if actions.just_pressed(AppAction::Back) {
        attempt_flee(state, balance, rng, &mut sounds);
        return sounds;
    }
    match actions.menu_navigation() {
        Some(movement) => {
            state.command_index = wrap_index(state.command_index, movement, 4);
            sounds.push(MenuSound::Hover);
        },
        None => {},
    }
    if confirm_pressed(actions) {
        let command = command_for(state.command_index);
        if !state.command_available(command) {
            state.message = match command {
                BattleCommand::Spell => "No usable abilities.".to_owned(),
                BattleCommand::Item => "No battle items available.".to_owned(),
                BattleCommand::Run => "Can't escape from a boss!".to_owned(),
                BattleCommand::Attack => "That action is unavailable.".to_owned(),
            };
            sounds.push(MenuSound::Blocked);
            return sounds;
        }
        sounds.push(MenuSound::Confirm);
        match command {
            BattleCommand::Attack => {
                state.target = TargetSelector::new(TargetGroup::Enemy, state.combatants.as_slice(), false);
                if state.target.is_some() {
                    state.phase = BattlePhase::Target;
                    state.message = "Choose a living enemy. ESC cancels.".to_owned();
                } else {
                    state.assess_result();
                }
            },
            BattleCommand::Run => {
                attempt_flee(state, balance, rng, &mut sounds);
            },
            BattleCommand::Spell => {
                state.ability_index = 0;
                state.pending_ability = None;
                state.phase = BattlePhase::Ability;
                state.message = "Choose an ability. ESC cancels.".to_owned();
            },
            BattleCommand::Item => {
                state.item_index = 0;
                state.pending_item = None;
                state.phase = BattlePhase::Item;
                state.message = "Choose an item. ESC cancels.".to_owned();
            },
        }
    }
    sounds
}

/// The positions of the abilities the active combatant can use in battle, in order.
pub open spec fn castable_choices(state: BattleState) -> Seq<usize> {
    match state.spec_active_key() {
        Some(k) => match state.spec_actor(k) {
            Some(a) => crate::battle::resolver::castable_positions(a.abilities@),
            None => Seq::empty(),
        },
        None => Seq::empty(),
    }
}

/// What a frame of input does to the ability menu, from `before` to `after`, the generator
/// from state `s0` to `s1`: Back (or Left) returns to the commands; Up and Down move through
/// the usable abilities; Confirm (or Right) starts the one under the cursor.
pub open spec fn ability_menu_step(
    before: BattleState,
    after: BattleState,
    actions: ActionState,
    s0: u64,
    s1: u64,
) -> bool {
    if cancels(actions) {
        &&& after == (BattleState { phase: BattlePhase::Command, message: after.message, ..before })
        &&& after.message@ == "Action cancelled."@
        &&& s1 == s0
    } else {
        let choices = castable_choices(before);
        let index = stepped(before.ability_index, vertical_step(actions), choices.len()) as usize;
        let moved = BattleState { ability_index: index, ..before };
        if confirms(actions) && index < choices.len() {
            ability_targeting_begun(moved, after, choices[index as int] as int, s0, s1)
        } else {
            after == moved && s1 == s0
        }
    }
}

/// The ability menu: Back (or Left) returns to the commands; Up and Down move through the
/// usable abilities; Confirm (or Right) starts the one under the cursor.
pub fn handle_ability_menu(state: &mut BattleState, actions: &ActionState, rng: &mut GameplayRng)
    requires
        pools_ok(old(state).combatants@),
        moves_all_bounded(old(state).combatants@),
        !cancels(*actions) && vertical_step(*actions) is Some ==> castable_exists(*old(state)),
    ensures
        pools_ok(final(state).combatants@),
        moves_all_bounded(final(state).combatants@),
        final(state).turn_order == old(state).turn_order,
        ability_menu_step(*old(state), *final(state), *actions, old(rng).spec_state(), final(rng).spec_state()),
{
    let choices = state.battle_ability_indices();
    if cancel_pressed(actions) {
        state.phase = BattlePhase::Command;
        state.message = "Action cancelled.".to_owned();
        return;
    }
    match actions.menu_navigation() {
        Some(movement) => {
            state.ability_index = wrap_index(state.ability_index, movement, choices.len());
        },
        None => {},
    }
    if confirm_pressed(actions) && state.ability_index < choices.len() {
        let ability_index = choices[state.ability_index];
        begin_ability_targeting(state, ability_index, rng);
    }
}

/// The item menu: Back (or Left) returns to the commands; Up and Down move through the bag;
/// Confirm (or Right) starts the item under the cursor.
pub fn handle_item_menu(state: &mut BattleState, actions: &ActionState, items: &[ConsumableItem])
    requires
        !cancels(*actions) && vertical_step(*actions) is Some ==> old(state).item_choices@.len() > 0,
    ensures
        final(state).combatants == old(state).combatants,
        final(state).turn_order == old(state).turn_order,
        cancels(*actions) ==> final(state).phase == BattlePhase::Command && final(state).message@
            == "Action cancelled."@,
        !cancels(*actions) ==> final(state).item_index == stepped(
            old(state).item_index,
            vertical_step(*actions),
            old(state).item_choices@.len(),
        ),
        !cancels(*actions) && !confirms(*actions) ==> final(state).phase == old(state).phase,
        item_menu_step(*old(state), *final(state), *actions, items@),
{
    if cancel_pressed(actions) {
        state.phase = BattlePhase::Command;
        state.message = "Action cancelled.".to_owned();
        return;
    }
    match actions.menu_navigation() {
        Some(movement) => {
            state.item_index = wrap_index(state.item_index, movement, state.item_choices.len());
        },
        None => {},
    }
    if confirm_pressed(actions) && state.item_index < state.item_choices.len() {
        let id = state.item_choices[state.item_index].id.clone();
        let index = state.item_index;
        begin_item_targeting(state, id.as_str(), items);
        assert(state.item_index == index);
    }
}

/// What confirming the target under the cursor does, from `before` to `after`, the generator
/// from state `s0` to `s1` and the inventory from `repo0` to `repo1`: the selection is cleared
/// (with the pending item, unless an ability was pending), then the pending ability, else the
/// pending item, else a basic attack of the active combatant resolves on that target.
pub open spec fn target_confirmed(
    before: BattleState,
    after: BattleState,
    s0: u64,
    s1: u64,
    repo0: RuntimeRepository,
    repo1: RuntimeRepository,
    items: Seq<ConsumableItem>,
) -> bool {
    let cleared = BattleState {
        target: None,
        pending_ability: None,
        pending_item: if before.pending_ability is None {
            None
        } else {
            before.pending_item
        },
        ..before
    };
    match (before.spec_active_key(), before.target) {
        (Some(a), Some(t)) => {
            let tk = t.eligible@[t.selected as int];
            match before.pending_ability {
                Some(ab) => ability_chosen(cleared, after, a, ab as int, seq![tk], s0, s1) && repo1 == repo0,
                None => match before.pending_item {
                    Some(id) => item_chosen(cleared, after, a, id@, tk, items, repo0, repo1) && s1 == s0,
                    None => crate::battle::resolver::physical_resolved(cleared, after, a, tk, s0, s1)
                        && repo1 == repo0,
                },
            }
        },
        _ => after == cleared && s1 == s0 && repo1 == repo0,
    }
}

/// What a frame of input does to target selection, from `before` to `after`, the generator
/// from state `s0` to `s1` and the inventory from `repo0` to `repo1`: Back returns to the menu
/// the action came from; the arrows step through the eligible targets, wrapping; Confirm then
/// resolves the pending action on the target under the cursor.
pub open spec fn targeting_step(
    before: BattleState,
    after: BattleState,
    actions: ActionState,
    s0: u64,
    s1: u64,
    repo0: RuntimeRepository,
    repo1: RuntimeRepository,
    items: Seq<ConsumableItem>,
) -> bool {
    if actions.began(AppAction::Back) {
        &&& after == (BattleState {
            target: None,
            phase: if before.pending_ability is Some {
                BattlePhase::Ability
            } else if before.pending_item is Some {
                BattlePhase::Item
            } else {
                BattlePhase::Command
            },
            message: after.message,
            ..before
        })
        &&& after.message@ == "Action cancelled."@
        &&& s1 == s0
        &&& repo1 == repo0
    } else {
        let navigated = match (target_step(actions), before.target) {
            (Some(m), Some(t)) => BattleState {
                target: Some(
                    TargetSelector {
                        selected: ((t.selected as int + m as int) % (t.eligible@.len() as int)) as usize,
                        ..t
                    },
                ),
                ..before
            },
            _ => before,
        };
        if actions.began(AppAction::Confirm) {
            target_confirmed(navigated, after, s0, s1, repo0, repo1, items)
        } else {
            after == navigated && s1 == s0 && repo1 == repo0
        }
    }
}

/// Target selection: Back returns to the menu the action came from; the arrows step through the
/// eligible targets; Confirm resolves the pending ability, item, or attack on the target.
pub fn handle_targeting(
    state: &mut BattleState,
    actions: &ActionState,
    rng: &mut GameplayRng,
    repository: &mut RuntimeRepository,
    items: &[ConsumableItem],
)
    requires
        pools_ok(old(state).combatants@),
        moves_all_bounded(old(state).combatants@),
        !actions.began(AppAction::Back) && (actions.began(AppAction::Confirm) || target_step(
            *actions,
        ) is Some) ==> (old(state).target matches Some(t) ==> t.well_formed()),
    ensures
        pools_ok(final(state).combatants@),
        moves_all_bounded(final(state).combatants@),
        final(state).turn_order == old(state).turn_order,
        actions.began(AppAction::Back) ==> {
            &&& final(state).target is None
            &&& final(state).combatants == old(state).combatants
            &&& final(state).message@ == "Action cancelled."@
            &&& final(state).phase == if old(state).pending_ability is Some {
                BattlePhase::Ability
            } else if old(state).pending_item is Some {
                BattlePhase::Item
            } else {
                BattlePhase::Command
            }
        },
        !actions.began(AppAction::Back) && actions.began(AppAction::Confirm) ==> final(state).target
            is None && final(state).pending_ability is None,
        !actions.began(AppAction::Back) && !actions.began(AppAction::Confirm) ==> final(state).combatants
            == old(state).combatants && final(state).phase == old(state).phase,
        targeting_step(
            *old(state),
            *final(state),
            *actions,
            old(rng).spec_state(),
            final(rng).spec_state(),
            *old(repository),
            *final(repository),
            items@,
        ),
{
    if actions.just_pressed(AppAction::Back) {
        state.target = None;
        state.phase = if state.pending_ability.is_some() {
            BattlePhase::Ability
        } else if state.pending_item.is_some() {
            BattlePhase::Item
        } else {
            BattlePhase::Command
        };
        state.message = "Action cancelled.".to_owned();
        return;
    }
    match target_navigation(actions) {
        Some(movement) => {
            let mut taken: Option<TargetSelector> = None;
            std::mem::swap(&mut taken, &mut state.target);
            match taken {
                Some(mut t) => {
                    t.navigate(movement);
                    state.target = Some(t);
                },
                None => {},
            }
        },
        None => {},
    }
    if actions.just_pressed(AppAction::Confirm) {
        confirm_target(state, rng, repository, items);
    }
}

/// Confirms the target under the cursor: the pending ability, else the pending item, else a
/// basic attack resolves on it, and the selection is cleared.
#[verifier::rlimit(100)]
pub fn confirm_target(
    state: &mut BattleState,
    rng: &mut GameplayRng,
    repository: &mut RuntimeRepository,
    items: &[ConsumableItem],
)
    requires
        pools_ok(old(state).combatants@),
        moves_all_bounded(old(state).combatants@),
        old(state).target matches Some(t) ==> t.well_formed(),
    ensures
        pools_ok(final(state).combatants@),
        moves_all_bounded(final(state).combatants@),
        final(state).turn_order == old(state).turn_order,
        final(state).target is None,
        final(state).pending_ability is None,
        target_confirmed(
            *old(state),
            *final(state),
            old(rng).spec_state(),
            final(rng).spec_state(),
            *old(repository),
            *final(repository),
            items@,
        ),
{
    let attacker = state.active_key();
    let target = match &state.target {
        Some(t) => Some(t.selected()),
        None => None,
    };
    state.target = None;
    let pending_ability = state.pending_ability;
    state.pending_ability = None;
    let mut pending_item: Option<String> = None;
    if pending_ability.is_none() {
        std::mem::swap(&mut pending_item, &mut state.pending_item);
    }
    proof {
        let before = *old(state);
        assert(*state == (BattleState {
            target: None,
            pending_ability: None,
            pending_item: if before.pending_ability is None {
                None
            } else {
                before.pending_item
            },
            ..before
        }));
        assert(pending_ability is None ==> pending_item == before.pending_item);
    }
    match (attacker, target) {
        (Some(attacker), Some(target)) => {
            match pending_ability {
                Some(ability) => {
                    let targets = vec![target];
                    assert(targets@ =~= seq![target]);
                    resolve_selected_ability(state, attacker, ability, targets.as_slice(), rng);
                },
                None => match pending_item {
                    Some(item_id) => {
                        resolve_selected_item(state, attacker, item_id.as_str(), target, items, repository);
                    },
                    None => {
                        let ghost cs = state.combatants@;
                        state.resolve_physical(attacker, target, rng);
                        proof {
                            assert forall|j: int| 0 <= j < state.combatants@.len() implies crate::battle::enemy_ai::moves_bounded(#[trigger] state.combatants@[j]) by {
                                assert(crate::battle::enemy_ai::moves_bounded(cs[j]));
                            }
                        }
                    },
                },
            }
        },
        _ => {},
    }
}

/// Settles a won battle once its rewards were applied to the game (`applied`, from the
/// confirmed victory's `ClaimRewards`): rewards already recorded are refused; applied rewards
/// are recorded, their details shown, and the battle moves to the rewards screen; a failure
/// to apply them is shown and the battle stays won.
pub fn claim_rewards(state: &mut BattleState, applied: Result<BattleRewards, RewardError>)
    requires
        applied matches Ok(r) ==> gains_bounded(r.members@),
    ensures
        old(state).rewards is Some ==> {
            &&& *final(state) == (BattleState { message: final(state).message, ..*old(state) })
            &&& final(state).message@ == "Could not apply rewards: "@ + reward_error_text(
                RewardError::AlreadyApplied,
            )
        },
        old(state).rewards is None ==> match applied {
            Ok(r) => {
                &&& *final(state) == (BattleState {
                    rewards: Some(r),
                    phase: BattlePhase::Rewards,
                    message: final(state).message,
                    ..*old(state)
                })
                &&& final(state).message@ == detail_text(r.members@)
            },
            Err(e) => {
                &&& *final(state) == (BattleState { message: final(state).message, ..*old(state) })
                &&& final(state).message@ == "Could not apply rewards: "@ + reward_error_text(e)
            },
        },
{
    let outcome = if state.rewards.is_some() {
        Err(RewardError::AlreadyApplied)
    } else {
        applied
    };
    match outcome {
        Ok(rewards) => {
            state.message = rewards.detail_message();
            state.rewards = Some(rewards);
            state.phase = BattlePhase::Rewards;
        },
        Err(error) => {
            let text = error.describe();
            state.message = concat2("Could not apply rewards: ", text.as_str());
        },
    }
}

/// What one frame of input does to the battle, by the phase it met, from `before` to `after`,
/// the generator from state `s0` to `s1` and the inventory from `repo0` to `repo1`, with
/// `sounds` played: a new battle starts its first turn and a finished turn passes to the next;
/// the menus and target selection take the frame as their steps say; Confirm on a resolved
/// action assesses the battle; a won battle waiting for its balance data says so; Confirm on a
/// failed or blocked escape passes the turn on; otherwise nothing changes.
pub open spec fn input_step(
    before: BattleState,
    after: BattleState,
    actions: ActionState,
    balance: Option<&BalanceData>,
    rng0: GameplayRng,
    rng1: GameplayRng,
    repo0: RuntimeRepository,
    repo1: RuntimeRepository,
    items: Seq<ConsumableItem>,
    sounds: Seq<MenuSound>,
) -> bool {
    let s0 = rng0.spec_state();
    let s1 = rng1.spec_state();
    let confirm = actions.began(AppAction::Confirm);
    let others_kept = repo1 == repo0 && (before.phase != BattlePhase::Command ==> sounds.len() == 0);
    match before.phase {
        BattlePhase::Start => others_kept && crate::battle::resolver::turn_begun(
            before,
            after,
            rng0,
            rng1,
        ),
        BattlePhase::Advance => others_kept && crate::battle::resolver::turn_begun(
            crate::battle::resolver::stepped_turn(before),
            after,
            rng0,
            rng1,
        ),
        BattlePhase::Command => repo1 == repo0 && command_menu_step(before, after, actions, balance, s0, s1, sounds),
        BattlePhase::Ability => others_kept && ability_menu_step(before, after, actions, s0, s1),
        BattlePhase::Item => others_kept && s1 == s0 && item_menu_step(before, after, actions, items),
        BattlePhase::Target => sounds.len() == 0 && targeting_step(before, after, actions, s0, s1, repo0, repo1, items),
        BattlePhase::Resolve => others_kept && s1 == s0 && if confirm {
            crate::battle::resolver::result_assessed(before, after)
        } else {
            after == before
        },
        BattlePhase::Victory => others_kept && s1 == s0 && if confirm && balance is None {
            &&& after == (BattleState { message: after.message, ..before })
            &&& after.message@ == "Battle balance is still loading."@
        } else {
            after == before
        },
        BattlePhase::Flee => others_kept && s1 == s0 && if confirm && before.flee_outcome != Some(
            FleeOutcome::Success,
        ) {
            after == (BattleState { phase: BattlePhase::Advance, ..before })
        } else {
            after == before
        },
        _ => others_kept && s1 == s0 && after == before,
    }
}

/// Moves the battle through one frame of input.
///
/// At the start of a turn or between turns the battle runs on by itself. The command, ability
/// and item menus and target selection take the frame's actions as their handlers say. A
/// resolved action waits for Confirm; a won battle, confirmed, asks for its rewards to be
/// applied (then settled by `claim_rewards`); the rewards screen and a successful escape
/// confirm back to the world; a defeat ends the game; a failed escape passes the turn on.
pub fn handle_battle_input(
    state: &mut BattleState,
    actions: &ActionState,
    rng: &mut GameplayRng,
    repository: &mut RuntimeRepository,
    balance: Option<&BalanceData>,
    items: &[ConsumableItem],
) -> (r: (BattleInputOutcome, Vec<MenuSound>))
    requires
        pools_ok(old(state).combatants@),
        moves_all_bounded(old(state).combatants@),
        old(state).phase == BattlePhase::Command && !actions.began(AppAction::Back) && confirms(
            *actions,
        ) && vertical_step(*actions) is None ==> old(state).command_index < 4,
        old(state).phase == BattlePhase::Ability && !cancels(*actions) && vertical_step(*actions) is Some
            ==> castable_exists(*old(state)),
        old(state).phase == BattlePhase::Item && !cancels(*actions) && vertical_step(*actions) is Some
            ==> old(state).item_choices@.len() > 0,
        old(state).phase == BattlePhase::Target && !actions.began(AppAction::Back) && (actions.began(
            AppAction::Confirm,
        ) || target_step(*actions) is Some) ==> (old(state).target matches Some(t) ==> t.well_formed()),
    ensures
        pools_ok(final(state).combatants@),
        moves_all_bounded(final(state).combatants@),
        final(state).turn_order == old(state).turn_order,
        r.0 == input_outcome(old(state).phase, *actions, balance is Some, old(state).flee_outcome),
        old(state).phase != BattlePhase::Command && old(state).phase != BattlePhase::Flee ==> r.1@.len()
            == 0,
        old(state).phase == BattlePhase::Flee && actions.began(AppAction::Confirm) && old(
            state,
        ).flee_outcome != Some(FleeOutcome::Success) ==> final(state).phase == BattlePhase::Advance,
        old(state).phase == BattlePhase::Resolve && !actions.began(AppAction::Confirm)
            ==> *final(state) == *old(state),
        old(state).phase == BattlePhase::Rewards || old(state).phase == BattlePhase::Defeat
            || old(state).phase == BattlePhase::Victory ==> final(state).combatants == old(state).combatants
            && final(state).phase == old(state).phase,
        input_step(
            *old(state),
            *final(state),
            *actions,
            balance,
            *old(rng),
            *final(rng),
            *old(repository),
            *final(repository),
            items@,
            r.1@,
        ),
{
    let mut sounds: Vec<MenuSound> = Vec::new();
    let outcome = match state.phase {
        BattlePhase::Start => {
            state.begin_active_turn(rng);
            BattleInputOutcome::Continue
        },
        BattlePhase::Advance => {
            state.advance(rng);
            BattleInputOutcome::Continue
        },
        BattlePhase::Command => {
            sounds = handle_command_menu(state, actions, rng, balance);
            BattleInputOutcome::Continue
        },
        BattlePhase::Ability => {
            handle_ability_menu(state, actions, rng);
            BattleInputOutcome::Continue
        },
        BattlePhase::Item => {
            handle_item_menu(state, actions, items);
            BattleInputOutcome::Continue
        },
        BattlePhase::Target => {
            handle_targeting(state, actions, rng, repository, items);
            BattleInputOutcome::Continue
        },
        BattlePhase::Resolve => {
            if actions.just_pressed(AppAction::Confirm) {
                state.assess_result();
            }
            BattleInputOutcome::Continue
        },
        BattlePhase::Victory => {
            if actions.just_pressed(AppAction::Confirm) {
                if balance.is_none() {
                    state.message = "Battle balance is still loading.".to_owned();
                    BattleInputOutcome::Continue
                } else {
                    BattleInputOutcome::ClaimRewards
                }
            } else {
                BattleInputOutcome::Continue
            }
        },
        BattlePhase::Rewards => {
            if actions.just_pressed(AppAction::Confirm) {
                BattleInputOutcome::ReturnToWorld
            } else {
                BattleInputOutcome::Continue
            }
        },
        BattlePhase::Defeat => BattleInputOutcome::GameOver,
        BattlePhase::Flee => {
            if actions.just_pressed(AppAction::Confirm) {
                let outcome = match state.flee_outcome {
                    Some(o) => o,
                    None => FleeOutcome::Failed,
                };
                match phase_after_flee_confirmation(outcome) {
                    None => BattleInputOutcome::ReturnToWorld,
                    Some(next) => {
                        state.phase = next;
                        BattleInputOutcome::Continue
                    },
                }
            } else {
                BattleInputOutcome::Continue
            }
        },
    };
    (outcome, sounds)
}

} // verus!
