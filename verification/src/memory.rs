//! Typed access to one place in a target process.
//!
//! A [`MemoryBlock`] binds a capability, an offset chain and a value type. It
//! copies nothing itself: each of its operations is a fresh [`Transfer`] that
//! walks the chain anew, so an address that moved between two operations is
//! found again.

use std::marker::PhantomData;
use vstd::prelude::*;
use vstd::slice::slice_to_vec;
use crate::arch::Arch;
use crate::error::InvalidChain;
use crate::process::{Handle, ProcessBlock};
use crate::transfer::{Plan, Transfer};
use crate::value::FixedSize;

verus! {

/// The sum of two offsets in machine words: what does not fit wraps around.
pub open spec fn wrapped_sum(a: usize, b: usize) -> usize {
    if a + b <= usize::MAX {
        (a + b) as usize
    } else {
        (a + b - usize::MAX - 1) as usize
    }
}

/// The chain `offsets` with `delta` added to its last element and every other
/// element as it was.
pub open spec fn shifted(offsets: Seq<usize>, delta: usize) -> Seq<usize> {
    offsets.update(offsets.len() - 1, wrapped_sum(offsets.last(), delta))
}

/// An accessor as a mathematical value: what it is bound to.
pub struct Block {
    /// The capability over the target process.
    pub handle: Handle,
    /// The offset chain; never empty.
    pub offsets: Seq<usize>,
}

/// A place in a target process that holds a `T`, named by an offset chain and
/// reached through pointers as wide as `A` says.
pub struct MemoryBlock<T: FixedSize, A: Arch> {
    handle: Handle,
    address_offset: Vec<usize>,
    _marker: PhantomData<T>,
    _phantom: PhantomData<A>,
}

impl<T: FixedSize, A: Arch> View for MemoryBlock<T, A> {
    type V = Block;

    closed spec fn view(&self) -> Block {
        Block { handle: self.handle, offsets: self.address_offset@ }
    }
}

impl<A: Arch> ProcessBlock<A> {
    /// An accessor for the `T` at the end of `address_offset`, sharing this
    /// block's capability.
    pub fn memory_block<T: FixedSize>(&self, address_offset: Vec<usize>) -> (block: MemoryBlock<
        T,
        A,
    >)
        requires
            address_offset@.len() >= 1,
        ensures
            block@ == (Block { handle: self@, offsets: address_offset@ }),
    {
        MemoryBlock::new(self.handle(), address_offset)
    }
}

/// A copy of `offsets` with `delta` added to its last element.
fn shift(offsets: &Vec<usize>, delta: usize) -> (derived: Vec<usize>)
    requires
        offsets@.len() >= 1,
    ensures
        derived@ == shifted(offsets@, delta),
{
    let mut derived = slice_to_vec(offsets.as_slice());
    let last_index = derived.len() - 1;
    let last = derived[last_index];
    let sum = if delta <= usize::MAX - last {
        last + delta
    } else {
        delta - (usize::MAX - last) - 1
    };
    derived.set(last_index, sum);
    derived
}

impl<T: FixedSize, A: Arch> MemoryBlock<T, A> {
    #[verifier::type_invariant]
    spec fn inv(self) -> bool {
        self.address_offset@.len() >= 1
    }

    /// Binds `handle` and the chain `address_offset`, which must not be
    /// empty.
    pub fn new(handle: Handle, address_offset: Vec<usize>) -> (block: Self)
        requires
            address_offset@.len() >= 1,
        ensures
            block@ == (Block { handle, offsets: address_offset@ }),
    {
        Self { handle, address_offset, _marker: PhantomData, _phantom: PhantomData }
    }

    /// Binds `handle` and the chain `address_offset`, or refuses an empty
    /// chain.
    pub fn try_new(handle: Handle, address_offset: Vec<usize>) -> (result: Result<
        Self,
        InvalidChain,
    >)
        ensures
            match result {
                Ok(block) => address_offset@.len() >= 1 && block@ == (Block {
                    handle,
                    offsets: address_offset@,
                }),
                Err(_) => address_offset@.len() == 0,
            },
    {
        if address_offset.len() == 0 {
            Err(InvalidChain)
        } else {
            Ok(Self::new(handle, address_offset))
        }
    }

    /// The capability that this accessor is bound to.
    pub fn handle(&self) -> (handle: Handle)
        ensures
            handle == self@.handle,
    {
        self.handle
    }

    /// A read of the value at the end of the chain.
    pub fn read(&self) -> (transfer: Transfer)
        ensures
            transfer@ == Plan::reading(
                self@.handle,
                A::pointer_bytes(),
                self@.offsets,
                T::size(),
            ),
    {
        proof {
            use_type_invariant(self);
        }
        read_process_memory::<T, A>(self.handle, self.address_offset.as_slice())
    }

    /// A write of `data` at the end of the chain.
    pub fn write(&self, data: T) -> (transfer: Transfer)
        ensures
            transfer@ == Plan::writing(
                self@.handle,
                A::pointer_bytes(),
                self@.offsets,
                data.encode(),
            ),
    {
        proof {
            use_type_invariant(self);
        }
        write_process_memory::<T, A>(self.handle, self.address_offset.as_slice(), data)
    }

    /// A read of the value that lies `offset` bytes beyond the end of the
    /// chain: the chain is walked as it is but for its last element, to which
    /// `offset` is added. The accessor's own chain stays as it was.
    pub fn read_with_offset(&self, offset: usize) -> (transfer: Transfer)
        ensures
            transfer@ == Plan::reading(
                self@.handle,
                A::pointer_bytes(),
                shifted(self@.offsets, offset),
                T::size(),
            ),
    {
        proof {
            use_type_invariant(self);
        }
        let new_offsets = shift(&self.address_offset, offset);
        read_process_memory::<T, A>(self.handle, new_offsets.as_slice())
    }

    /// A write of `data` `offset` bytes beyond the end of the chain, as
    /// [`MemoryBlock::read_with_offset`] reads there.
    pub fn write_with_offset(&self, offset: usize, data: T) -> (transfer: Transfer)
        ensures
            transfer@ == Plan::writing(
                self@.handle,
                A::pointer_bytes(),
                shifted(self@.offsets, offset),
                data.encode(),
            ),
    {
        proof {
            use_type_invariant(self);
        }
        let new_offsets = shift(&self.address_offset, offset);
        write_process_memory::<T, A>(self.handle, new_offsets.as_slice(), data)
    }
}

/// A read of the `T` at the end of the chain `address_offset`, which must not
/// be empty, in the process that `handle` stands for.
pub fn read_process_memory<T: FixedSize, A: Arch>(handle: Handle, address_offset: &[usize]) -> (transfer:
    Transfer)
    requires
        address_offset@.len() >= 1,
    ensures
        transfer@ == Plan::reading(handle, A::pointer_bytes(), address_offset@, T::size()),
{
    Transfer::read(handle, A::pointer_size(), slice_to_vec(address_offset), T::byte_size())
}

/// A write of `value` at the end of the chain `address_offset`, which must
/// not be empty, in the process that `handle` stands for.
pub fn write_process_memory<T: FixedSize, A: Arch>(
    handle: Handle,
    address_offset: &[usize],
    value: T,
) -> (transfer: Transfer)
    requires
        address_offset@.len() >= 1,
    ensures
        transfer@ == Plan::writing(handle, A::pointer_bytes(), address_offset@, value.encode()),
{
    Transfer::write(handle, A::pointer_size(), slice_to_vec(address_offset), value.to_bytes())
}

/// Shifting a chain touches its last element only: the chain keeps its length
/// and every earlier element, and its last element grows by `delta`, exactly
/// so where the sum fits a machine word.
pub proof fn theorem_shifted_chain(offsets: Seq<usize>, delta: usize)
    requires
        offsets.len() >= 1,
    ensures
        shifted(offsets, delta).len() == offsets.len(),
        shifted(offsets, delta) == offsets.drop_last().push(wrapped_sum(offsets.last(), delta)),
        forall|i: int|
            0 <= i < offsets.len() - 1 ==> #[trigger] shifted(offsets, delta)[i] == offsets[i],
        offsets.last() + delta <= usize::MAX ==> shifted(offsets, delta).last() == offsets.last()
            + delta,
{
    assert(shifted(offsets, delta) =~= offsets.drop_last().push(
        wrapped_sum(offsets.last(), delta),
    ));
}

/// Access at an offset is access through a fresh chain: what an accessor with
/// the chain `[a, o]` reads or writes at offset `delta` is what an accessor
/// with the chain `[a, o + delta]` reads or writes.
pub proof fn theorem_offset_access(
    handle: Handle,
    width: nat,
    a: usize,
    o: usize,
    delta: usize,
    len: nat,
    bytes: Seq<u8>,
)
    requires
        o + delta <= usize::MAX,
    ensures
        Plan::reading(handle, width, shifted(seq![a, o], delta), len) == Plan::reading(
            handle,
            width,
            seq![a, (o + delta) as usize],
            len,
        ),
        Plan::writing(handle, width, shifted(seq![a, o], delta), bytes) == Plan::writing(
            handle,
            width,
            seq![a, (o + delta) as usize],
            bytes,
        ),
{
    assert(shifted(seq![a, o], delta) =~= seq![a, (o + delta) as usize]);
}

} // verus!
