//! A small seedable pseudo-random generator.
//!
//! Randomness is threaded explicitly: every function that draws a value
//! takes a generator handle, so render workers get private streams and a
//! whole render is a deterministic function of its seed.

use vstd::prelude::*;
use vstd::wrapping::u64_specs;

verus! {

/// Additive constant of the state walk (the golden-ratio increment).
pub const STATE_STEP: u64 = 0x9E37_79B9_7F4A_7C15;

/// First mixing multiplier.
pub const MIX_MUL_A: u64 = 0xBF58_476D_1CE4_E5B9;

/// Second mixing multiplier.
pub const MIX_MUL_B: u64 = 0x94D0_49BB_1331_11EB;

/// The output mix applied to a state word.
pub open spec fn mix64(z0: u64) -> u64 {
    let z1 = u64_specs::wrapping_mul(z0 ^ (z0 >> 30), MIX_MUL_A);
    let z2 = u64_specs::wrapping_mul(z1 ^ (z1 >> 27), MIX_MUL_B);
    z2 ^ (z2 >> 31)
}

/// Pseudo-random generator: a 64-bit state stepped by a fixed increment,
/// with a bijective output mix.
#[derive(Clone, Copy, Debug, PartialEq, Eq, Structural)]
pub struct Prng {
    pub state: u64,
}

impl Prng {
    /// The output word and successor state of one draw.
    pub open spec fn next_spec(self) -> (u64, Prng) {
        let s = u64_specs::wrapping_add(self.state, STATE_STEP);
        (mix64(s), Prng { state: s })
    }

    pub fn from_seed(seed: u64) -> (r: Prng)
        ensures
            r == (Prng { state: seed }),
    {
        Prng { state: seed }
    }

    /// Draw one 64-bit word and advance the state.
    pub fn next_u64(&mut self) -> (r: u64)
        ensures
            (r, *final(self)) == old(self).next_spec(),
    {
        self.state = self.state.wrapping_add(STATE_STEP);
        let z0 = self.state;
        let z1 = (z0 ^ (z0 >> 30)).wrapping_mul(MIX_MUL_A);
        let z2 = (z1 ^ (z1 >> 27)).wrapping_mul(MIX_MUL_B);
        z2 ^ (z2 >> 31)
    }
}

/// The stream seed used for one scanline of a render: derived from the
/// render seed and the row index so rows have independent streams.
pub open spec fn row_seed_spec(seed: u64, row: u32) -> u64 {
    mix64(seed ^ (row as u64))
}

pub fn row_seed(seed: u64, row: u32) -> (r: u64)
    ensures
        r == row_seed_spec(seed, row),
{
    let z0 = seed ^ (row as u64);
    let z1 = (z0 ^ (z0 >> 30)).wrapping_mul(MIX_MUL_A);
    let z2 = (z1 ^ (z1 >> 27)).wrapping_mul(MIX_MUL_B);
    z2 ^ (z2 >> 31)
}

} // verus!
