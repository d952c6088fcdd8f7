//! Real numbers, as far as decisions need them: how they are ordered and how they are written.
use vstd::prelude::*;

verus! {

/// A real number. `key` orders it: for a number from zero up it is the bits of its 64-bit
/// floating-point form, for one below zero the same bits of its absolute value, negated; so a larger
/// number has a larger key and zero has the key 0. `wire` is the number as it is written.
#[derive(Debug)]
pub struct Real {
    pub key: i64,
    pub wire: String,
}

/// The key of one.
pub const ONE: i64 = 0x3ff0_0000_0000_0000;

/// The key of three.
pub const THREE: i64 = 0x4008_0000_0000_0000;

/// The key of fourteen.
pub const FOURTEEN: i64 = 0x402c_0000_0000_0000;

impl Real {
    /// The same number again.
    pub fn copied(&self) -> (r: Real)
        ensures
            r == *self,
    {
        Real { key: self.key, wire: self.wire.clone() }
    }
}

/// The same optional number again.
pub fn copy_real(r: &Option<Real>) -> (out: Option<Real>)
    ensures
        out == *r,
{
    match r {
        Some(x) => Some(x.copied()),
        None => None,
    }
}

} // verus!
