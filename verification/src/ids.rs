//! Entity identities: a 128-bit UUID value.
//!
//! The library models a UUID as its 128 bits.  Generating a fresh, time-ordered
//! (version 7) identifier is delegated to the `uuid` crate; everything else is
//! plain data the verifier can reason about.

use vstd::prelude::*;

verus! {

/// A universally unique identifier, held as its 128-bit value.
#[derive(Clone, Copy, PartialEq, Eq, Structural, Debug, Hash)]
pub struct Uuid {
    pub bits: u128,
}

impl Uuid {
    /// The nil UUID, all bits zero.
    pub fn nil() -> (r: Uuid)
        ensures
            r.bits == 0,
    {
        Uuid { bits: 0 }
    }

    /// A UUID from an explicit 128-bit value.
    pub fn from_u128(v: u128) -> (r: Uuid)
        ensures
            r.bits == v,
    {
        Uuid { bits: v }
    }

    /// The 128-bit value, for adapters that hand the id to outside code.
    pub fn as_u128(&self) -> (r: u128)
        ensures
            r == self.bits,
    {
        self.bits
    }

    /// Relies on `uuid::Uuid::now_v7`: a fresh version-7 UUID drawn from the
    /// system clock.  Nothing can be promised of the value.
    #[verifier::external_body]
    pub fn now_v7() -> Uuid {
        Uuid { bits: uuid::Uuid::now_v7().as_u128() }
    }
}

} // verus!
