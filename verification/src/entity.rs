//! Entity identifiers.

use vstd::prelude::*;

verus! {

/// Opaque handle of one simulated thing. A world hands out identifiers in
/// increasing order and never reuses one, so a stale handle can be told from
/// a live one by looking it up.
#[derive(Clone, Copy, Debug, PartialEq, Eq, Hash, Structural)]
pub struct Entity(pub u64);

impl Entity {
    /// The number behind the handle.
    pub open spec fn index(self) -> int {
        self.0 as int
    }

    /// The number behind the handle, as the machine holds it.
    pub open spec fn to_bits_spec(self) -> u64 {
        self.0
    }

    /// Rebuilds a handle from its number.
    pub fn from_bits(bits: u64) -> (e: Entity)
        ensures
            e == Entity(bits),
    {
        Entity(bits)
    }

    /// The number behind the handle.
    pub fn to_bits(self) -> (bits: u64)
        ensures
            bits == self.0,
    {
        self.0
    }
}

} // verus!
