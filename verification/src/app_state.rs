//! The top-level application states and how same-frame transition requests settle.

use vstd::prelude::*;

verus! {

/// The game's top-level states.
#[derive(Clone, Copy, Debug, PartialEq, Eq, Hash, Structural)]
pub enum AppState {
    Boot,
    Title,
    NameEntry,
    Dialogue,
    World,
    Battle,
    FieldMenu,
    PostBattle,
    GameOver,
    Credits,
}

/// A request for a top-level state change, made without constructing the target scene.
#[derive(Clone, Copy, Debug, PartialEq, Eq, Structural)]
pub struct AppStateTransitionRequest {
    target: AppState,
}

impl AppStateTransitionRequest {
    /// The requested state.
    pub closed spec fn spec_target(self) -> AppState {
        self.target
    }

    /// A request to move to `target`.
    pub fn new(target: AppState) -> (r: Self)
        ensures
            r.spec_target() == target,
    {
        AppStateTransitionRequest { target }
    }

    /// The requested state.
    pub fn target(&self) -> (r: AppState)
        ensures
            r == self.spec_target(),
    {
        self.target
    }
}

/// The state a frame's requests settle on: the last request in the order they were made, or
/// the current state when there is none.
pub open spec fn settled_state(current: AppState, requests: Seq<AppStateTransitionRequest>) -> AppState {
    if requests.len() == 0 {
        current
    } else {
        requests.last().spec_target()
    }
}

/// Settles one frame's transition requests: at most one transition per frame, the last request
/// winning, and no change without a request.
pub fn next_app_state(current: AppState, requests: &[AppStateTransitionRequest]) -> (r: AppState)
    ensures
        r == settled_state(current, requests@),
{
    let n = requests.len();
    if n == 0 {
        current
    } else {
        requests[n - 1].target()
    }
}

} // verus!
