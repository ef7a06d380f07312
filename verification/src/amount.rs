//! Numeric amounts.
//!
//! Ingredient amounts are IEEE 754 double-precision numbers at the system's
//! edge.  The library carries such a number as its 64-bit pattern: total,
//! one-for-one, and free of floating-point reasoning.  Adapters convert with
//! `f64::to_bits` / `f64::from_bits` on their side.

use vstd::prelude::*;

verus! {

/// A numeric amount, held as the bit pattern of a 64-bit IEEE 754 double.
#[derive(Clone, Copy, PartialEq, Eq, Structural, Debug)]
pub struct Amount {
    pub bits: u64,
}

impl Amount {
    /// An amount from the bit pattern of a double.
    pub fn from_bits(bits: u64) -> (r: Amount)
        ensures
            r.bits == bits,
    {
        Amount { bits }
    }

    /// The bit pattern, for adapters that hand the number to outside code.
    pub fn to_bits(&self) -> (r: u64)
        ensures
            r == self.bits,
    {
        self.bits
    }
}

} // verus!
