//! The seeded gameplay random-number generator.
//!
//! Every random decision in battle draws from one `GameplayRng`, so a battle replays exactly from
//! its seed. The generator is SplitMix64: the state advances by a fixed odd increment and each
//! output is a bit-mixed copy of the new state.

use vstd::prelude::*;

verus! {

/// The seed gameplay uses when none is given.
pub const DEFAULT_GAMEPLAY_SEED: u64 = 1;

/// The state increment, an odd constant.
pub const INCREMENT: u64 = 0x9E37_79B9_7F4A_7C15;

/// The first mixing multiplier.
pub const MIX_A: u64 = 0xBF58_476D_1CE4_E5B9;

/// The second mixing multiplier.
pub const MIX_B: u64 = 0x94D0_49BB_1331_11EB;

/// The state after one draw from state `s`.
pub open spec fn next_state(s: u64) -> u64 {
    vstd::wrapping::u64_specs::wrapping_add(s, INCREMENT)
}

/// The output mixed from an advanced state `z`.
pub open spec fn mix(z: u64) -> u64 {
    let a = vstd::wrapping::u64_specs::wrapping_mul(z ^ (z >> 30u64), MIX_A);
    let b = vstd::wrapping::u64_specs::wrapping_mul(a ^ (a >> 27u64), MIX_B);
    b ^ (b >> 31u64)
}

/// The value one draw from state `s` returns.
pub open spec fn output(s: u64) -> u64 {
    mix(next_state(s))
}

/// A deterministic generator of 64-bit values.
#[derive(Clone, Copy, Debug, PartialEq, Eq, Structural)]
pub struct GameplayRng {
    state: u64,
}

impl GameplayRng {
    /// The generator's current state.
    pub closed spec fn spec_state(self) -> u64 {
        self.state
    }

    /// A generator whose state is the seed.
    pub fn from_seed(seed: u64) -> (r: Self)
        ensures
            r.spec_state() == seed,
    {
        GameplayRng { state: seed }
    }

    /// The current state, for replay bookkeeping.
    pub fn state(&self) -> (r: u64)
        ensures
            r == self.spec_state(),
    {
        self.state
    }

    /// Draws the next value and advances the state.
    pub fn next_u64(&mut self) -> (r: u64)
        ensures
            r == output(old(self).spec_state()),
            final(self).spec_state() == next_state(old(self).spec_state()),
    {
        self.state = self.state.wrapping_add(INCREMENT);
        let z = self.state;
        let a = (z ^ (z >> 30u64)).wrapping_mul(MIX_A);
        let b = (a ^ (a >> 27u64)).wrapping_mul(MIX_B);
        b ^ (b >> 31u64)
    }
}

} // verus!
