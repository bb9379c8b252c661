//! Account identities: 160-bit addresses held as plain integers, so that
//! contracts can speak of them directly. The zero identity is reserved:
//! it never receives a transfer, and it stands for "no account" in the
//! transfer events that mint and burn emit.

use vstd::prelude::*;

verus! {

/// A 160-bit account identity, split as 4 high bytes and 16 low bytes.
#[derive(Clone, Copy, Debug, PartialEq, Eq, Structural)]
pub struct Address {
    pub hi: u32,
    pub lo: u128,
}

impl Address {
    /// The zero (null) identity, as a spec value.
    pub open spec fn spec_zero() -> Address {
        Address { hi: 0, lo: 0 }
    }

    /// Whether this is the zero (null) identity.
    pub open spec fn spec_is_zero(self) -> bool {
        self.hi == 0 && self.lo == 0
    }

    pub fn zero() -> (r: Self)
        ensures
            r == Address::spec_zero(),
            r.spec_is_zero(),
    {
        Address { hi: 0, lo: 0 }
    }

    pub fn from_parts(hi: u32, lo: u128) -> (r: Self)
        ensures
            r.hi == hi && r.lo == lo,
    {
        Address { hi, lo }
    }

    /// Whether this is the zero identity.
    pub fn is_zero(&self) -> (r: bool)
        ensures
            r == self.spec_is_zero(),
    {
        self.hi == 0 && self.lo == 0
    }
}

} // verus!
