use vstd::prelude::*;

use crate::piece::NUM_KINDS;

verus! {

pub const MULTIPLIER: u64 = 6364136223846793005;

pub const INCREMENT: u64 = 1442695040888963407;

/// A seedable source of piece shapes: a 64-bit linear congruential
/// generator whose high bits pick the shape.
#[derive(Clone, Copy, Debug, PartialEq, Eq, Structural)]
pub struct PieceSource {
    pub state: u64,
}

impl PieceSource {
    pub fn new(seed: u64) -> (s: PieceSource)
        ensures
            s.state == seed,
    {
        PieceSource { state: seed }
    }

    /// Advances the generator and returns the shape it picks.
    pub fn next_kind(&mut self) -> (k: u8)
        ensures
            final(self).state == old(self).state.wrapping_mul(MULTIPLIER).wrapping_add(INCREMENT),
            k == (final(self).state >> 33u64) % (NUM_KINDS as u64),
            k < NUM_KINDS,
    {
        self.state = self.state.wrapping_mul(MULTIPLIER).wrapping_add(INCREMENT);
        ((self.state >> 33u64) % (NUM_KINDS as u64)) as u8
    }
}

} // verus!
