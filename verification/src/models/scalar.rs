//! Plain values that stand for an entity's identifier, its timestamps and a price.

use vstd::prelude::*;

verus! {

/// The 128-bit value of a generated unique identifier.
#[derive(Clone, Copy, Debug, PartialEq, Eq, Structural)]
pub struct EntityId {
    pub bits: u128,
}

/// An instant, in microseconds since the Unix epoch (the resolution of the store).
#[derive(Clone, Copy, Debug, PartialEq, Eq, Structural)]
pub struct Timestamp {
    pub micros: i64,
}

/// A price, held as the bit pattern of a 64-bit binary floating-point number.
///
/// The catalog never computes with a price: it stores the pattern and hands it
/// back unchanged, so a price read back is bit for bit the price that was given.
/// A binary floating-point number cannot hold every decimal amount exactly.
#[derive(Clone, Copy, Debug, PartialEq, Eq, Structural)]
pub struct Price {
    pub bits: u64,
}

} // verus!
