use vstd::prelude::*;

verus! {

/// A 32-byte account address, held as its first and last 16 bytes read little-endian.
#[derive(Clone, Copy, Debug, PartialEq, Eq, Structural)]
pub struct Key {
    pub lo: u128,
    pub hi: u128,
}

impl Key {
    /// The all-zero address, the value a freshly created account field holds.
    pub fn zeroed() -> (k: Key)
        ensures
            k.lo == 0,
            k.hi == 0,
    {
        Key { lo: 0, hi: 0 }
    }
}

} // verus!
