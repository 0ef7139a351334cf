//! Pointer widths of the target process.

use vstd::prelude::*;

verus! {

/// Pointers of a 32-bit target.
pub type X32 = u32;

/// Pointers of a 64-bit target.
pub type X64 = u64;

/// Pointers as wide as those of this process.
pub type Auto = usize;

/// A tag that fixes how many bytes are read for each intermediate pointer of a
/// chain. It has no bearing on the width of the value at the end of the chain.
pub trait Arch {
    /// Bytes in one pointer.
    spec fn pointer_bytes() -> nat;

    /// Bytes in one pointer, at run time.
    fn pointer_size() -> (n: usize)
        ensures
            n == Self::pointer_bytes(),
            1 <= n <= 8,
    ;
}

impl Arch for u32 {
    open spec fn pointer_bytes() -> nat {
        4
    }

    fn pointer_size() -> (n: usize) {
        4
    }
}

impl Arch for u64 {
    open spec fn pointer_bytes() -> nat {
        8
    }

    fn pointer_size() -> (n: usize) {
        8
    }
}

impl Arch for usize {
    open spec fn pointer_bytes() -> nat {
        (usize::BITS / 8) as nat
    }

    fn pointer_size() -> (n: usize) {
        (usize::BITS / 8) as usize
    }
}

} // verus!
