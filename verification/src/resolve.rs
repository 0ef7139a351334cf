//! Walking a multi-level pointer to the address it names.
//!
//! A chain `[a, o1, .., on]` names the address reached by starting at `a` and,
//! for each further offset in turn, reading the pointer stored at the current
//! address and adding the offset to it. A [`Resolution`] is one such walk in
//! progress: it asks for one pointer at a time and never looks back.

use vstd::prelude::*;
use crate::arch::Arch;
use crate::bytes::{decode_le, le_value, lemma_span_monotonic, lemma_span_values, span};
use crate::error::MemoryAccessError;
use crate::process::Handle;
use crate::protocol::{Action, ActionView, Event, EventView};

verus! {

/// The address that follows from a pointer value and the offset applied to
/// it: their sum, wrapped at the pointer width.
pub open spec fn next_address(width: nat, pointer: nat, offset: usize) -> u64 {
    ((pointer + offset) % (span(width) as int)) as u64
}

/// A walk in progress, as a mathematical value.
pub struct Walk {
    /// The capability that every fetch is to use.
    pub handle: Handle,
    /// Bytes in one intermediate pointer.
    pub width: nat,
    /// The chain being walked.
    pub offsets: Seq<usize>,
    /// How many elements of the chain are already part of `address`.
    pub link: nat,
    /// The address reached so far.
    pub address: u64,
    /// Set once a pointer could not be read; the walk then stands still.
    pub failure: Option<MemoryAccessError>,
}

impl Walk {
    /// The shape that every walk keeps.
    pub open spec fn wf(self) -> bool {
        &&& 1 <= self.width <= 8
        &&& 1 <= self.link <= self.offsets.len()
    }

    /// The walk of `offsets` before any pointer was read.
    pub open spec fn start(handle: Handle, width: nat, offsets: Seq<usize>) -> Walk {
        Walk { handle, width, offsets, link: 1, address: offsets[0] as u64, failure: None }
    }

    /// The fetch that the walk waits for, if it waits for one.
    pub open spec fn pending(self) -> Option<ActionView> {
        if self.failure is None && self.link < self.offsets.len() {
            Some(ActionView::Fetch { handle: self.handle, address: self.address, len: self.width })
        } else {
            None
        }
    }

    /// How the walk ended, once it has: with the final address, or with the
    /// failure that broke it.
    pub open spec fn outcome(self) -> Option<Result<u64, MemoryAccessError>> {
        match self.failure {
            Some(e) => Some(Err(e)),
            None => if self.link == self.offsets.len() {
                Some(Ok(self.address))
            } else {
                None
            },
        }
    }

    /// The walk one link further on, `bytes` being the pointer that was read.
    pub open spec fn advanced(self, bytes: Seq<u8>) -> Walk {
        Walk {
            link: self.link + 1,
            address: next_address(self.width, le_value(bytes), self.offsets[self.link as int]),
            ..self
        }
    }

    /// The walk broken at the address it had reached.
    pub open spec fn broken(self) -> Walk {
        Walk {
            failure: Some(
                MemoryAccessError::Pointer { link: self.link as usize, address: self.address },
            ),
            ..self
        }
    }

    /// The walk after `event` answered its pending fetch. Only a fetch of
    /// exactly one pointer's width moves it on; any other answer breaks it.
    /// A walk that waits for nothing ignores events.
    pub open spec fn step(self, event: EventView) -> Walk {
        if self.pending() is None {
            self
        } else {
            match event {
                EventView::Fetched(bytes) => if bytes.len() == self.width {
                    self.advanced(bytes)
                } else {
                    self.broken()
                },
                _ => self.broken(),
            }
        }
    }

    /// Fetches that the walk can still ask for, at most.
    pub open spec fn fetches_left(self) -> nat {
        if self.failure is None && self.link < self.offsets.len() {
            (self.offsets.len() - self.link) as nat
        } else {
            0
        }
    }
}

/// A step keeps the shape of a walk, leaves its chain, width and capability
/// alone, and uses up one of the fetches that were left.
pub proof fn lemma_step_keeps_walk(walk: Walk, event: EventView)
    requires
        walk.wf(),
    ensures
        walk.step(event).wf(),
        walk.step(event).handle == walk.handle,
        walk.step(event).width == walk.width,
        walk.step(event).offsets == walk.offsets,
        walk.pending() is Some ==> walk.step(event).fetches_left() < walk.fetches_left(),
        walk.pending() is None ==> walk.step(event) == walk,
{
}

/// A walk either waits for a fetch or has an outcome, never both.
pub proof fn lemma_pending_or_outcome(walk: Walk)
    requires
        walk.wf(),
    ensures
        walk.pending() is None <==> walk.outcome() is Some,
{
}

/// A walk of a chain, one pointer at a time.
pub struct Resolution {
    handle: Handle,
    width: usize,
    offsets: Vec<usize>,
    link: usize,
    address: u64,
    failure: Option<MemoryAccessError>,
}

impl View for Resolution {
    type V = Walk;

    closed spec fn view(&self) -> Walk {
        Walk {
            handle: self.handle,
            width: self.width as nat,
            offsets: self.offsets@,
            link: self.link as nat,
            address: self.address,
            failure: self.failure,
        }
    }
}

/// `256` to the power `width`, at run time.
fn span_of(width: usize) -> (m: u128)
    requires
        width <= 8,
    ensures
        m == span(width as nat),
{
    let mut m: u128 = 1;
    let mut i: usize = 0;
    while i < width
        invariant
            i <= width <= 8,
            m == span(i as nat),
        decreases width - i,
    {
        proof {
            lemma_span_monotonic(i as nat, 7);
            lemma_span_values();
        }
        m = m * 256;
        i = i + 1;
    }
    m
}

/// Adds `offset` to a pointer value, wrapping at `width` bytes.
pub fn offset_address(width: usize, pointer: u64, offset: usize) -> (address: u64)
    requires
        1 <= width <= 8,
    ensures
        address == next_address(width as nat, pointer as nat, offset),
{
    let modulus: u128 = span_of(width);
    proof {
        lemma_span_monotonic(width as nat, 8);
        lemma_span_values();
    }
    let sum: u128 = pointer as u128 + offset as u128;
    (sum % modulus) as u64
}

/// Starts the walk of `address_offset` for a target whose pointers are as
/// wide as `A` says. Nothing is read yet: a chain of one element is resolved
/// as it stands, to that element.
pub fn resolve_multilevel_pointer<A: Arch>(handle: Handle, address_offset: &[usize]) -> (walk:
    Resolution)
    requires
        address_offset@.len() >= 1,
    ensures
        walk@ == Walk::start(handle, A::pointer_bytes(), address_offset@),
{
    Resolution::start(handle, A::pointer_size(), vstd::slice::slice_to_vec(address_offset))
}

impl Resolution {
    #[verifier::type_invariant]
    spec fn inv(self) -> bool {
        self@.wf()
    }

    /// Starts the walk of `offsets` with pointers of `width` bytes.
    pub fn start(handle: Handle, width: usize, offsets: Vec<usize>) -> (walk: Resolution)
        requires
            1 <= width <= 8,
            offsets@.len() >= 1,
        ensures
            walk@ == Walk::start(handle, width as nat, offsets@),
    {
        let first = offsets[0];
        Resolution { handle, width, offsets, link: 1, address: first as u64, failure: None }
    }

    /// The capability that the walk's fetches use.
    pub fn handle(&self) -> (handle: Handle)
        ensures
            handle == self@.handle,
    {
        self.handle
    }

    /// The address reached so far: the final one once the walk is resolved.
    pub fn address(&self) -> (address: u64)
        ensures
            address == self@.address,
    {
        self.address
    }

    /// The fetch to perform next: one pointer at the address reached so far.
    /// `None` once the walk has an outcome.
    pub fn action(&self) -> (action: Option<Action>)
        ensures
            match action {
                Some(a) => self@.pending() == Some(a@),
                None => self@.pending() is None,
            },
    {
        if self.failure.is_none() && self.link < self.offsets.len() {
            Some(Action::Fetch { handle: self.handle, address: self.address, len: self.width })
        } else {
            None
        }
    }

    /// The final address, or the failure that broke the chain. `None` while a
    /// fetch is pending.
    pub fn outcome(&self) -> (outcome: Option<Result<u64, MemoryAccessError>>)
        ensures
            outcome == self@.outcome(),
    {
        match self.failure {
            Some(e) => Some(Err(e)),
            None => if self.link == self.offsets.len() {
                Some(Ok(self.address))
            } else {
                None
            },
        }
    }

    /// Takes the answer to the pending fetch and moves on: to the next
    /// address, or to a failure that ends the walk.
    pub fn step(self, event: &Event) -> (next: Resolution)
        ensures
            next@ == self@.step(event@),
    {
        proof {
            use_type_invariant(&self);
        }
        if self.failure.is_some() || self.link >= self.offsets.len() {
            return self;
        }
        match event {
            Event::Fetched(bytes) => {
                if bytes.len() == self.width {
                    let pointer = decode_le(bytes.as_slice());
                    let address = offset_address(self.width, pointer, self.offsets[self.link]);
                    return Resolution {
                        handle: self.handle,
                        width: self.width,
                        offsets: self.offsets,
                        link: self.link + 1,
                        address,
                        failure: None,
                    };
                }
            },
            _ => {},
        }
        let failure = MemoryAccessError::Pointer { link: self.link, address: self.address };
        Resolution {
            handle: self.handle,
            width: self.width,
            offsets: self.offsets,
            link: self.link,
            address: self.address,
            failure: Some(failure),
        }
    }
}

} // verus!
