//! What can go wrong.

use vstd::prelude::*;

verus! {

/// A copy between the two address spaces failed. No partial result exists:
/// the operation that met the failure has copied nothing further.
#[derive(Clone, Copy, Debug, PartialEq, Eq)]
pub enum MemoryAccessError {
    /// The chain is broken: the pointer stored at `address` could not be read.
    /// `link` is the position in the chain of the offset that this pointer
    /// would have been the base of, so the first dereference has `link` 1.
    Pointer { link: usize, address: u64 },
    /// The chain was walked to its end, but the value at `address` could not
    /// be copied.
    Value { address: u64 },
}

/// An offset chain with no element: it names no address.
#[derive(Clone, Copy, Debug, PartialEq, Eq)]
pub struct InvalidChain;

} // verus!
