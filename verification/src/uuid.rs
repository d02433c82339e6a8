//! Opaque identifiers for members, items and contracts.

use vstd::prelude::*;

verus! {

/// An opaque, equality-comparable identifier. A fresh one is minted for every
/// entity; it never changes afterwards.
#[derive(Clone, Copy, PartialEq, Eq, Structural, Debug, Hash)]
pub struct Uuid {
    value: u64,
}

/// Relies on rand::random: draws a uniformly random u64 from the thread-local
/// generator. Nothing is promised of the value.
#[verifier::external_body]
fn random_u64() -> u64 {
    rand::random::<u64>()
}

impl Uuid {
    /// The raw value, as a mathematical view of the identifier.
    pub closed spec fn spec_value(&self) -> u64 {
        self.value
    }

    /// Mints a new identifier. Distinctness from earlier identifiers rests on
    /// the randomness of the source and is not a proved property.
    pub fn new() -> Uuid {
        Uuid { value: random_u64() }
    }

    /// The raw value, for display purposes.
    pub fn value(&self) -> (v: u64)
        ensures
            v == self.spec_value(),
    {
        self.value
    }
}

} // verus!
