//! A 20-byte account address.
use vstd::prelude::*;

verus! {

/// An account address: `hi` holds its first sixteen bytes and `lo` its last
/// four, both big-endian.
#[derive(Clone, Copy, Debug, PartialEq, Eq, Structural)]
pub struct Address {
    pub hi: u128,
    pub lo: u32,
}

impl Address {
    pub open spec fn is_zero(self) -> bool {
        self.hi == 0 && self.lo == 0
    }

    /// The zero address, where locked LP units go.
    pub fn zero() -> (r: Address)
        ensures
            r.is_zero(),
    {
        Address { hi: 0, lo: 0 }
    }
}

} // verus!
