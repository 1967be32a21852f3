//! Engine settings that are not scenario content.

use vstd::prelude::*;

verus! {

/// How fast dialogue text appears.
#[derive(Clone, Copy, Debug, Default, PartialEq, Eq, Structural)]
pub enum TextSpeed {
    Slow,
    #[default]
    Fast,
    VeryFast,
}

/// Why the settings could not be read: the rendered cause.
#[derive(Clone, Debug, PartialEq, Eq)]
pub struct EngineConfigError(pub String);

} // verus!
