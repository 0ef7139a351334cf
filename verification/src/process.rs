//! The capability over a target process, and the factory built on it.

use std::marker::PhantomData;
use vstd::prelude::*;
use crate::arch::Arch;

verus! {

/// A capability over the address space of a target process, as the operating
/// system numbers it. The library never opens, closes or inspects it: it is
/// handed on, unchanged, with every copy that an operation asks for.
#[derive(Clone, Copy, Debug, PartialEq, Eq, Hash)]
pub struct Handle {
    pub raw: usize,
}

/// A target process together with the width of its pointers: the place to
/// make accessors that share one capability.
pub struct ProcessBlock<A: Arch> {
    handle: Handle,
    marker: PhantomData<A>,
}

impl<A: Arch> View for ProcessBlock<A> {
    type V = Handle;

    closed spec fn view(&self) -> Handle {
        self.handle
    }
}

impl<A: Arch> ProcessBlock<A> {
    /// Wraps `handle`.
    pub fn from(handle: Handle) -> (block: Self)
        ensures
            block@ == handle,
    {
        Self { handle, marker: PhantomData }
    }

    /// The capability that was wrapped.
    pub fn handle(&self) -> (handle: Handle)
        ensures
            handle == self@,
    {
        self.handle
    }
}

/// Something that stands for a target process.
pub trait ToProcessBlock: Sized {
    /// The capability that it stands for.
    spec fn capability(self) -> Handle;

    /// Wraps that capability for a target whose pointers are as wide as `A`
    /// says.
    fn into_process_block<A: Arch>(self) -> (block: ProcessBlock<A>)
        ensures
            block@ == self.capability(),
    ;
}

impl ToProcessBlock for Handle {
    open spec fn capability(self) -> Handle {
        self
    }

    fn into_process_block<A: Arch>(self) -> (block: ProcessBlock<A>) {
        ProcessBlock::from(self)
    }
}

} // verus!
