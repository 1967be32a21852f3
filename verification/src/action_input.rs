//! Semantic input actions for one frame: menu actions that began this frame, movement held this
//! frame, and how a gamepad stick drives both.
//!
//! Menu actions are edge-triggered and a conflicting pair never takes two steps: Up wins over
//! Down, Left over Right. Movement is continuous; opposite directions cancel.

use vstd::prelude::*;

verus! {

/// A menu-level action.
#[derive(Clone, Copy, Debug, PartialEq, Eq, Hash, Structural)]
pub enum AppAction {
    Back,
    Confirm,
    Up,
    Down,
    Left,
    Right,
    Travel,
}

impl AppAction {
    /// The action's slot in a frame's state.
    pub open spec fn slot(self) -> int {
        match self {
            AppAction::Back => 0,
            AppAction::Confirm => 1,
            AppAction::Up => 2,
            AppAction::Down => 3,
            AppAction::Left => 4,
            AppAction::Right => 5,
            AppAction::Travel => 6,
        }
    }

    /// The action's slot in a frame's state.
    pub fn index(self) -> (r: usize)
        ensures
            r == self.slot(),
    {
        match self {
            AppAction::Back => 0,
            AppAction::Confirm => 1,
            AppAction::Up => 2,
            AppAction::Down => 3,
            AppAction::Left => 4,
            AppAction::Right => 5,
            AppAction::Travel => 6,
        }
    }

    /// Every menu action.
    pub fn all() -> (r: [AppAction; 7])
        ensures
            forall|a: AppAction| #![auto] r@.contains(a),
    {
        let r = [
            AppAction::Back,
            AppAction::Confirm,
            AppAction::Up,
            AppAction::Down,
            AppAction::Left,
            AppAction::Right,
            AppAction::Travel,
        ];
        assert forall|a: AppAction| #![auto] r@.contains(a) by {
            assert(r@[a.slot()] == a);
        }
        r
    }
}

/// A world-movement direction.
#[derive(Clone, Copy, Debug, PartialEq, Eq, Hash, Structural)]
pub enum MovementAction {
    Up,
    Left,
    Down,
    Right,
}

impl MovementAction {
    /// The direction's slot in a frame's state.
    pub open spec fn slot(self) -> int {
        match self {
            MovementAction::Up => 0,
            MovementAction::Left => 1,
            MovementAction::Down => 2,
            MovementAction::Right => 3,
        }
    }

    /// The direction's slot in a frame's state.
    pub fn index(self) -> (r: usize)
        ensures
            r == self.slot(),
    {
        match self {
            MovementAction::Up => 0,
            MovementAction::Left => 1,
            MovementAction::Down => 2,
            MovementAction::Right => 3,
        }
    }

    /// Every movement direction.
    pub fn all() -> (r: [MovementAction; 4])
        ensures
            forall|m: MovementAction| #![auto] r@.contains(m),
    {
        let r = [MovementAction::Up, MovementAction::Left, MovementAction::Down, MovementAction::Right];
        assert forall|m: MovementAction| #![auto] r@.contains(m) by {
            assert(r@[m.slot()] == m);
        }
        r
    }
}

/// One frame's input as recorded and replayed, in recording order.
#[derive(Clone, Copy, Debug, PartialEq, Eq, PartialOrd, Ord, Hash, Structural)]
pub enum NormalizedAction {
    Back,
    Confirm,
    MenuUp,
    MenuDown,
    MenuLeft,
    MenuRight,
    Travel,
    MoveUp,
    MoveLeft,
    MoveDown,
    MoveRight,
}

impl NormalizedAction {
    /// The action's place in recording order.
    pub open spec fn rank(self) -> int {
        match self {
            NormalizedAction::Back => 0,
            NormalizedAction::Confirm => 1,
            NormalizedAction::MenuUp => 2,
            NormalizedAction::MenuDown => 3,
            NormalizedAction::MenuLeft => 4,
            NormalizedAction::MenuRight => 5,
            NormalizedAction::Travel => 6,
            NormalizedAction::MoveUp => 7,
            NormalizedAction::MoveLeft => 8,
            NormalizedAction::MoveDown => 9,
            NormalizedAction::MoveRight => 10,
        }
    }
}

/// The recorded form of a menu action.
pub open spec fn menu_record(a: AppAction) -> NormalizedAction {
    match a {
        AppAction::Back => NormalizedAction::Back,
        AppAction::Confirm => NormalizedAction::Confirm,
        AppAction::Up => NormalizedAction::MenuUp,
        AppAction::Down => NormalizedAction::MenuDown,
        AppAction::Left => NormalizedAction::MenuLeft,
        AppAction::Right => NormalizedAction::MenuRight,
        AppAction::Travel => NormalizedAction::Travel,
    }
}

/// The recorded form of a movement direction.
pub open spec fn movement_record(m: MovementAction) -> NormalizedAction {
    match m {
        MovementAction::Up => NormalizedAction::MoveUp,
        MovementAction::Left => NormalizedAction::MoveLeft,
        MovementAction::Down => NormalizedAction::MoveDown,
        MovementAction::Right => NormalizedAction::MoveRight,
    }
}

/// One of the eight directions of world movement.
#[derive(Clone, Copy, Debug, PartialEq, Eq, Hash, Structural)]
pub enum EightWayDirection {
    Up,
    UpRight,
    Right,
    DownRight,
    Down,
    DownLeft,
    Left,
    UpLeft,
}

/// The direction of a summed horizontal and vertical input (down the screen positive), none
/// when both cancel.
pub open spec fn direction_for(horizontal: int, vertical: int) -> Option<EightWayDirection> {
    if horizontal == 0 && vertical == -1 {
        Some(EightWayDirection::Up)
    } else if horizontal == 1 && vertical == -1 {
        Some(EightWayDirection::UpRight)
    } else if horizontal == 1 && vertical == 0 {
        Some(EightWayDirection::Right)
    } else if horizontal == 1 && vertical == 1 {
        Some(EightWayDirection::DownRight)
    } else if horizontal == 0 && vertical == 1 {
        Some(EightWayDirection::Down)
    } else if horizontal == -1 && vertical == 1 {
        Some(EightWayDirection::DownLeft)
    } else if horizontal == -1 && vertical == 0 {
        Some(EightWayDirection::Left)
    } else if horizontal == -1 && vertical == -1 {
        Some(EightWayDirection::UpLeft)
    } else {
        None
    }
}

/// One frame's stick position, quantized to the nine directions a menu understands, in screen
/// convention: `vertical == 1` means down the screen.
#[derive(Clone, Copy, Debug, Default, PartialEq, Eq, Structural)]
pub struct StickDirection {
    pub horizontal: i8,
    pub vertical: i8,
}

/// The semantic actions of the current input frame.
#[derive(Debug, PartialEq, Eq)]
pub struct ActionState {
    just_pressed: [bool; 7],
    movement_pressed: [bool; 4],
}

/// 1 when `b` holds, else 0.
pub open spec fn count(b: bool) -> int {
    if b {
        1
    } else {
        0
    }
}

impl ActionState {
    /// Whether the menu action began this frame.
    pub closed spec fn began(&self, a: AppAction) -> bool {
        self.just_pressed@[a.slot()]
    }

    /// Whether the movement direction is held this frame.
    pub closed spec fn held(&self, m: MovementAction) -> bool {
        self.movement_pressed@[m.slot()]
    }

    /// Whether this frame's input includes the recorded action `n`.
    pub open spec fn reports(&self, n: NormalizedAction) -> bool {
        match n {
            NormalizedAction::Back => self.began(AppAction::Back),
            NormalizedAction::Confirm => self.began(AppAction::Confirm),
            NormalizedAction::MenuUp => self.began(AppAction::Up),
            NormalizedAction::MenuDown => self.began(AppAction::Down),
            NormalizedAction::MenuLeft => self.began(AppAction::Left),
            NormalizedAction::MenuRight => self.began(AppAction::Right),
            NormalizedAction::Travel => self.began(AppAction::Travel),
            NormalizedAction::MoveUp => self.held(MovementAction::Up),
            NormalizedAction::MoveLeft => self.held(MovementAction::Left),
            NormalizedAction::MoveDown => self.held(MovementAction::Down),
            NormalizedAction::MoveRight => self.held(MovementAction::Right),
        }
    }

    /// Two frames carry the same input.
    pub open spec fn same_input(&self, other: &ActionState) -> bool {
        (forall|a: AppAction| #[trigger] self.began(a) == other.began(a)) && (forall|
            m: MovementAction,
        | #[trigger] self.held(m) == other.held(m))
    }

    /// A frame with no input.
    pub fn new() -> (r: Self)
        ensures
            forall|a: AppAction| !r.began(a),
            forall|m: MovementAction| !r.held(m),
    {
        ActionState { just_pressed: [false; 7], movement_pressed: [false; 4] }
    }

    /// Whether `action` began this frame.
    pub fn just_pressed(&self, action: AppAction) -> (r: bool)
        ensures
            r == self.began(action),
    {
        self.just_pressed[action.index()]
    }

    /// Whether `action` is held this frame.
    pub fn movement_held(&self, action: MovementAction) -> (r: bool)
        ensures
            r == self.held(action),
    {
        self.movement_pressed[action.index()]
    }

    /// Same-frame vertical menu navigation as one step: Up wins over Down.
    pub fn menu_navigation(&self) -> (r: Option<isize>)
        ensures
            r == if self.began(AppAction::Up) {
                Some(-1isize)
            } else if self.began(AppAction::Down) {
                Some(1isize)
            } else {
                None
            },
    {
        if self.just_pressed(AppAction::Up) {
            Some(-1)
        } else if self.just_pressed(AppAction::Down) {
            Some(1)
        } else {
            None
        }
    }

    /// Same-frame horizontal menu navigation as one step: Left (previous) wins over Right.
    pub fn menu_navigation_horizontal(&self) -> (r: Option<isize>)
        ensures
            r == if self.began(AppAction::Left) {
                Some(-1isize)
            } else if self.began(AppAction::Right) {
                Some(1isize)
            } else {
                None
            },
    {
        if self.just_pressed(AppAction::Left) {
            Some(-1)
        } else if self.just_pressed(AppAction::Right) {
            Some(1)
        } else {
            None
        }
    }

    /// The held eight-way movement: every held direction summed, opposites cancelling.
    pub fn movement(&self) -> (r: Option<EightWayDirection>)
        ensures
            r == direction_for(
                count(self.held(MovementAction::Right)) - count(self.held(MovementAction::Left)),
                count(self.held(MovementAction::Down)) - count(self.held(MovementAction::Up)),
            ),
    {
        let right: i8 = if self.movement_held(MovementAction::Right) { 1 } else { 0 };
        let left: i8 = if self.movement_held(MovementAction::Left) { 1 } else { 0 };
        let down: i8 = if self.movement_held(MovementAction::Down) { 1 } else { 0 };
        let up: i8 = if self.movement_held(MovementAction::Up) { 1 } else { 0 };
        let horizontal = right - left;
        let vertical = down - up;
        if horizontal == 0 && vertical == -1 {
            Some(EightWayDirection::Up)
        } else if horizontal == 1 && vertical == -1 {
            Some(EightWayDirection::UpRight)
        } else if horizontal == 1 && vertical == 0 {
            Some(EightWayDirection::Right)
        } else if horizontal == 1 && vertical == 1 {
            Some(EightWayDirection::DownRight)
        } else if horizontal == 0 && vertical == 1 {
            Some(EightWayDirection::Down)
        } else if horizontal == -1 && vertical == 1 {
            Some(EightWayDirection::DownLeft)
        } else if horizontal == -1 && vertical == 0 {
            Some(EightWayDirection::Left)
        } else if horizontal == -1 && vertical == -1 {
            Some(EightWayDirection::UpLeft)
        } else {
            None
        }
    }

    /// This frame's input in recorded form: each action it holds, once, in recording order.
    pub fn normalized_actions(&self) -> (r: Vec<NormalizedAction>)
        ensures
            recorded_in_order(r@),
            forall|n: NormalizedAction| #[trigger] r@.contains(n) == self.reports(n),
    {
        let order = [
            NormalizedAction::Back,
            NormalizedAction::Confirm,
            NormalizedAction::MenuUp,
            NormalizedAction::MenuDown,
            NormalizedAction::MenuLeft,
            NormalizedAction::MenuRight,
            NormalizedAction::Travel,
            NormalizedAction::MoveUp,
            NormalizedAction::MoveLeft,
            NormalizedAction::MoveDown,
            NormalizedAction::MoveRight,
        ];
        assert forall|n: NormalizedAction| #![auto] order@[n.rank()] == n by {}
        let mut out: Vec<NormalizedAction> = Vec::new();
        let mut i: usize = 0;
        while i < 11
            invariant
                i <= 11,
                forall|k: int| 0 <= k < 11 ==> (#[trigger] order@[k]).rank() == k,
                recorded_in_order(out@),
                forall|k: int| 0 <= k < out@.len() ==> (#[trigger] out@[k]).rank() < i,
                forall|n: NormalizedAction|
                    #[trigger] out@.contains(n) == (n.rank() < i && self.reports(n)),
            decreases 11 - i,
        {
            let n = order[i];
            let present = self.reports_action(n);
            let ghost before = out@;
            if present {
                out.push(n);
                proof {
                    assert forall|m: NormalizedAction| #[trigger] out@.contains(m) == (
                    before.contains(m) || m == n) by {
                        lemma_contains_push(before, n, m);
                    }
                }
            }
            assert forall|m: NormalizedAction| #[trigger] out@.contains(m) == (m.rank() < i + 1
                && self.reports(m)) by {
                if m.rank() == i {
                    assert(m == n);
                }
                if before.contains(m) {
                    assert(m.rank() < i);
                }
            }
            i = i + 1;
        }
        out
    }

    /// Whether this frame's input includes the recorded action `n`.
    fn reports_action(&self, n: NormalizedAction) -> (r: bool)
        ensures
            r == self.reports(n),
    {
        match n {
            NormalizedAction::Back => self.just_pressed(AppAction::Back),
            NormalizedAction::Confirm => self.just_pressed(AppAction::Confirm),
            NormalizedAction::MenuUp => self.just_pressed(AppAction::Up),
            NormalizedAction::MenuDown => self.just_pressed(AppAction::Down),
            NormalizedAction::MenuLeft => self.just_pressed(AppAction::Left),
            NormalizedAction::MenuRight => self.just_pressed(AppAction::Right),
            NormalizedAction::Travel => self.just_pressed(AppAction::Travel),
            NormalizedAction::MoveUp => self.movement_held(MovementAction::Up),
            NormalizedAction::MoveLeft => self.movement_held(MovementAction::Left),
            NormalizedAction::MoveDown => self.movement_held(MovementAction::Down),
            NormalizedAction::MoveRight => self.movement_held(MovementAction::Right),
        }
    }

    /// Replaces this frame's input with the recorded actions `normalized`, as a replay does.
    pub fn replace_with_normalized(&mut self, normalized: &[NormalizedAction])
        ensures
            forall|n: NormalizedAction| #[trigger] final(self).reports(n) == normalized@.contains(n),
    {
        let mut just_pressed = [false; 7];
        let mut movement_pressed = [false; 4];
        let mut i: usize = 0;
        while i < normalized.len()
            invariant
                i <= normalized@.len(),
                forall|a: AppAction| #[trigger] just_pressed@[a.slot()] == normalized@.take(i as int).contains(menu_record(a)),
                forall|m: MovementAction| #[trigger] movement_pressed@[m.slot()] == normalized@.take(i as int).contains(movement_record(m)),
            decreases normalized@.len() - i,
        {
            let ghost before = normalized@.take(i as int);
            let ghost x = normalized@[i as int];
            assert(normalized@.take(i + 1) =~= before.push(x));
            assert forall|y: NormalizedAction| #[trigger] normalized@.take(i + 1).contains(y) == (
            before.contains(y) || x == y) by {
                lemma_contains_push(before, x, y);
            }
            match normalized[i] {
                NormalizedAction::Back => just_pressed[0] = true,
                NormalizedAction::Confirm => just_pressed[1] = true,
                NormalizedAction::MenuUp => just_pressed[2] = true,
                NormalizedAction::MenuDown => just_pressed[3] = true,
                NormalizedAction::MenuLeft => just_pressed[4] = true,
                NormalizedAction::MenuRight => just_pressed[5] = true,
                NormalizedAction::Travel => just_pressed[6] = true,
                NormalizedAction::MoveUp => movement_pressed[0] = true,
                NormalizedAction::MoveLeft => movement_pressed[1] = true,
                NormalizedAction::MoveDown => movement_pressed[2] = true,
                NormalizedAction::MoveRight => movement_pressed[3] = true,
            }
            i = i + 1;
        }
        assert(normalized@.take(i as int) =~= normalized@);
        self.just_pressed = just_pressed;
        self.movement_pressed = movement_pressed;
        assert forall|n: NormalizedAction| #[trigger] self.reports(n) == normalized@.contains(n) by {
            match n {
                NormalizedAction::Back => assert(menu_record(AppAction::Back) == n),
                NormalizedAction::Confirm => assert(menu_record(AppAction::Confirm) == n),
                NormalizedAction::MenuUp => assert(menu_record(AppAction::Up) == n),
                NormalizedAction::MenuDown => assert(menu_record(AppAction::Down) == n),
                NormalizedAction::MenuLeft => assert(menu_record(AppAction::Left) == n),
                NormalizedAction::MenuRight => assert(menu_record(AppAction::Right) == n),
                NormalizedAction::Travel => assert(menu_record(AppAction::Travel) == n),
                NormalizedAction::MoveUp => assert(movement_record(MovementAction::Up) == n),
                NormalizedAction::MoveLeft => assert(movement_record(MovementAction::Left) == n),
                NormalizedAction::MoveDown => assert(movement_record(MovementAction::Down) == n),
                NormalizedAction::MoveRight => assert(movement_record(MovementAction::Right) == n),
            }
        }
    }

    /// Records whether `action` began this frame: from its bound keys or buttons, or from the
    /// stick newly pushed its way.
    pub fn set_began(&mut self, action: AppAction, from_bindings: bool, stick_began: StickDirection)
        ensures
            final(self).began(action) == (from_bindings || menu_stick_edge_spec(action, stick_began)),
            forall|a: AppAction| a != action ==> #[trigger] final(self).began(a) == old(self).began(a),
            forall|m: MovementAction| #[trigger] final(self).held(m) == old(self).held(m),
    {
        let value = from_bindings || menu_stick_edge(action, stick_began);
        self.just_pressed[action.index()] = value;
    }

    /// Records whether `action` is held this frame: from its bound keys or buttons, or from the
    /// stick pushed its way.
    pub fn set_held(&mut self, action: MovementAction, from_bindings: bool, stick: StickDirection)
        ensures
            final(self).held(action) == (from_bindings || movement_stick_held_spec(action, stick)),
            forall|m: MovementAction| m != action ==> #[trigger] final(self).held(m) == old(self).held(m),
            forall|a: AppAction| #[trigger] final(self).began(a) == old(self).began(a),
    {
        let value = from_bindings || movement_stick_held(action, stick);
        self.movement_pressed[action.index()] = value;
    }
}

impl Default for ActionState {
    /// A frame with no input.
    fn default() -> (r: Self)
        ensures
            forall|a: AppAction| !r.began(a),
            forall|m: MovementAction| !r.held(m),
    {
        ActionState::new()
    }
}

/// Recorded actions in strictly increasing recording order: each at most once.
pub open spec fn recorded_in_order(s: Seq<NormalizedAction>) -> bool {
    forall|i: int, j: int| 0 <= i < j < s.len() ==> (#[trigger] s[i]).rank() < (#[trigger] s[j]).rank()
}

/// Whether a stick edge begins the menu action.
pub open spec fn menu_stick_edge_spec(action: AppAction, began: StickDirection) -> bool {
    match action {
        AppAction::Up => began.vertical == -1,
        AppAction::Down => began.vertical == 1,
        AppAction::Left => began.horizontal == -1,
        AppAction::Right => began.horizontal == 1,
        _ => false,
    }
}

/// Whether the stick holds the movement direction.
pub open spec fn movement_stick_held_spec(action: MovementAction, current: StickDirection) -> bool {
    match action {
        MovementAction::Up => current.vertical == -1,
        MovementAction::Down => current.vertical == 1,
        MovementAction::Left => current.horizontal == -1,
        MovementAction::Right => current.horizontal == 1,
    }
}

/// Whether the stick directions that began this frame begin `action`; only the four directional
/// menu actions can.
pub fn menu_stick_edge(action: AppAction, began: StickDirection) -> (r: bool)
    ensures
        r == menu_stick_edge_spec(action, began),
{
    match action {
        AppAction::Up => began.vertical == -1,
        AppAction::Down => began.vertical == 1,
        AppAction::Left => began.horizontal == -1,
        AppAction::Right => began.horizontal == 1,
        AppAction::Back | AppAction::Confirm | AppAction::Travel => false,
    }
}

/// Whether the stick's current direction holds the movement `action`.
pub fn movement_stick_held(action: MovementAction, current: StickDirection) -> (r: bool)
    ensures
        r == movement_stick_held_spec(action, current),
{
    match action {
        MovementAction::Up => current.vertical == -1,
        MovementAction::Down => current.vertical == 1,
        MovementAction::Left => current.horizontal == -1,
        MovementAction::Right => current.horizontal == 1,
    }
}

/// An axis that began this frame: it is off center and was not already pushed this way.
pub open spec fn axis_edge(now: i8, before: i8) -> i8 {
    if now != 0 && now != before {
        now
    } else {
        0
    }
}

/// The previous frame's stick direction, so a stick drives edge-triggered menu navigation with
/// no auto-repeat.
#[derive(Debug, Default, PartialEq, Eq)]
pub struct StickNavigation {
    previous: StickDirection,
}

impl StickNavigation {
    /// The stick direction of the previous frame.
    pub closed spec fn spec_previous(&self) -> StickDirection {
        self.previous
    }

    /// A stick last seen at center.
    pub fn new() -> (r: Self)
        ensures
            r.spec_previous() == (StickDirection { horizontal: 0, vertical: 0 }),
    {
        StickNavigation { previous: StickDirection { horizontal: 0, vertical: 0 } }
    }

    /// Advances to `current`, returning the directions that began this frame: an axis begins
    /// when it newly leaves center or reverses.
    pub fn advance(&mut self, current: StickDirection) -> (r: StickDirection)
        ensures
            r == (StickDirection {
                horizontal: axis_edge(current.horizontal, old(self).spec_previous().horizontal),
                vertical: axis_edge(current.vertical, old(self).spec_previous().vertical),
            }),
            final(self).spec_previous() == current,
    {
        let h = if current.horizontal != 0 && current.horizontal != self.previous.horizontal {
            current.horizontal
        } else {
            0
        };
        let v = if current.vertical != 0 && current.vertical != self.previous.vertical {
            current.vertical
        } else {
            0
        };
        self.previous = current;
        StickDirection { horizontal: h, vertical: v }
    }
}

/// `s` with `x` pushed holds `y` exactly when `s` does or `x` is `y`.
proof fn lemma_contains_push(s: Seq<NormalizedAction>, x: NormalizedAction, y: NormalizedAction)
    ensures
        s.push(x).contains(y) == (s.contains(y) || x == y),
{
    if s.contains(y) {
        let k = choose|k: int| 0 <= k < s.len() && s[k] == y;
        assert(s.push(x)[k] == y);
    }
    if x == y {
        assert(s.push(x)[s.len() as int] == y);
    }
    if s.push(x).contains(y) && x != y {
        let k = choose|k: int| 0 <= k < s.push(x).len() && s.push(x)[k] == y;
        assert(k < s.len());
        assert(s[k] == y);
    }
}

/// Replaying a frame's recorded actions gives back exactly that frame's input.
pub proof fn lemma_replay_restores_frame(
    frame: ActionState,
    recorded: Seq<NormalizedAction>,
    replayed: ActionState,
)
    requires
        forall|n: NormalizedAction| #[trigger] recorded.contains(n) == frame.reports(n),
        forall|n: NormalizedAction| #[trigger] replayed.reports(n) == recorded.contains(n),
    ensures
        replayed.same_input(&frame),
{
    assert forall|a: AppAction| #[trigger] replayed.began(a) == frame.began(a) by {
        assert(replayed.reports(menu_record(a)) == frame.reports(menu_record(a)));
    }
    assert forall|m: MovementAction| #[trigger] replayed.held(m) == frame.held(m) by {
        assert(replayed.reports(movement_record(m)) == frame.reports(movement_record(m)));
    }
}

/// Holding the stick still begins nothing: a second frame in the same direction yields no edge.
pub proof fn lemma_held_stick_begins_once(current: StickDirection)
    ensures
        axis_edge(current.horizontal, current.horizontal) == 0,
        axis_edge(current.vertical, current.vertical) == 0,
{
}

} // verus!
