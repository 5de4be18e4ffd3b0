//! Identifiers shared by every component.

use vstd::prelude::*;

verus! {

/// A 256-bit value, held as four 64-bit limbs, most significant first.
#[derive(Clone, Copy, Debug, PartialEq, Eq, Structural, Hash)]
pub struct B256 {
    pub w0: u64,
    pub w1: u64,
    pub w2: u64,
    pub w3: u64,
}

/// Identity of a node.
pub type PeerId = B256;

/// Hash of a transaction.
pub type TxHash = B256;

/// Hash of a block.
pub type BlockHash = B256;

impl B256 {
    /// The value whose limbs are all zero.
    pub fn zero() -> (r: B256)
        ensures
            r == (B256 { w0: 0, w1: 0, w2: 0, w3: 0 }),
    {
        B256 { w0: 0, w1: 0, w2: 0, w3: 0 }
    }

    /// The value `n`, widened to 256 bits.
    pub fn from_low_u64(n: u64) -> (r: B256)
        ensures
            r == (B256 { w0: 0, w1: 0, w2: 0, w3: n }),
    {
        B256 { w0: 0, w1: 0, w2: 0, w3: n }
    }
}

} // verus!
