//! Numbers as a page description carries them.

use vstd::prelude::*;

verus! {

/// A real number, held as the bit pattern of an IEEE 754 double.
///
/// The library moves reals from a page to the instructions it writes and
/// never computes with them, so two reals are the same exactly when their
/// bits are.
#[derive(Clone, Copy, Debug, PartialEq, Eq, Structural)]
pub struct Real {
    pub bits: u64,
}

/// A number written on a page: an integer or a real.
#[derive(Clone, Copy, Debug, PartialEq, Eq, Structural)]
pub enum Number {
    Integer(i64),
    Real(Real),
}

impl Real {
    /// The real with the given bit pattern.
    pub fn from_bits(bits: u64) -> (r: Real)
        ensures
            r.bits == bits,
    {
        Real { bits }
    }
}

} // verus!
