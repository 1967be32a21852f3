//! The ending a finished run earned, as the credits roll names it.

use vstd::prelude::*;

use crate::scenario_condition::{answers, is_lookup};

verus! {

/// Set by the epilogue's terminal dialogue line; the engine starts the credits on it.
pub const GAME_COMPLETE_FLAG: &'static str = "game_complete";

/// The title of the ending whose path flag is set, the hardest-earned first (the third fire,
/// then the release, then the rekindling), or the default title when no path is recorded.
pub open spec fn earned_title<F: Fn(&str) -> bool>(is_set: F) -> Seq<char> {
    if answers(is_set, "ending_path_third"@, true) {
        "THE THIRD FIRE"@
    } else if answers(is_set, "ending_path_release"@, true) {
        "THE RELEASE"@
    } else if answers(is_set, "ending_path_rekindle"@, true) {
        "THE REKINDLING"@
    } else {
        "THE END"@
    }
}

/// The ending title for the session's flags, looked up through `is_set`.
pub fn ending_title<F: Fn(&str) -> bool>(is_set: &F) -> (r: &'static str)
    requires
        is_lookup(*is_set),
    ensures
        r@ == earned_title(*is_set),
{
    let third = "ending_path_third";
    let release = "ending_path_release";
    let rekindle = "ending_path_rekindle";
    let a = is_set(third);
    let b = is_set(release);
    let c = is_set(rekindle);
    proof {
        if answers(*is_set, third@, !a) {
            let s = choose|s: &str| s@ == third@ && call_ensures(*is_set, (s,), !a);
        }
        if answers(*is_set, release@, !b) {
            let s = choose|s: &str| s@ == release@ && call_ensures(*is_set, (s,), !b);
        }
        if answers(*is_set, rekindle@, !c) {
            let s = choose|s: &str| s@ == rekindle@ && call_ensures(*is_set, (s,), !c);
        }
    }
    if a {
        "THE THIRD FIRE"
    } else if b {
        "THE RELEASE"
    } else if c {
        "THE REKINDLING"
    } else {
        "THE END"
    }
}

} // verus!
