//! One read or write at the end of a pointer chain.
//!
//! A [`Transfer`] walks its chain and then copies once: it asks for the
//! intermediate pointers, one by one, and last for the value itself. The first
//! failure ends it, and nothing is asked for afterwards.

use vstd::prelude::*;
use vstd::slice::slice_to_vec;
use crate::error::MemoryAccessError;
use crate::process::Handle;
use crate::protocol::{Action, ActionView, Event, EventView};
use crate::resolve::{lemma_step_keeps_walk, Resolution, Walk};
use crate::value::FixedSize;

verus! {

/// What a transfer does once the chain is resolved.
pub enum Job {
    /// Copy `len` bytes out of the target.
    Read { len: nat },
    /// Copy `bytes` into the target.
    Write { bytes: Seq<u8> },
}

/// A transfer in progress, as a mathematical value.
pub struct Plan {
    /// The walk of the chain.
    pub walk: Walk,
    /// The copy at the end of it.
    pub job: Job,
    /// How the transfer ended, once it has: with the bytes that were copied,
    /// or with the failure that stopped it.
    pub outcome: Option<Result<Seq<u8>, MemoryAccessError>>,
}

impl Plan {
    /// The shape that every transfer keeps: it has an outcome as soon as its
    /// walk is broken, and that outcome is the walk's failure.
    pub open spec fn wf(self) -> bool {
        &&& self.walk.wf()
        &&& self.walk.failure matches Some(e) ==> self.outcome == Some(
            Err::<Seq<u8>, MemoryAccessError>(e),
        )
    }

    /// The read of `len` bytes at the end of `offsets`, before anything was
    /// copied.
    pub open spec fn reading(handle: Handle, width: nat, offsets: Seq<usize>, len: nat) -> Plan {
        Plan { walk: Walk::start(handle, width, offsets), job: Job::Read { len }, outcome: None }
    }

    /// The write of `bytes` at the end of `offsets`, before anything was
    /// copied.
    pub open spec fn writing(
        handle: Handle,
        width: nat,
        offsets: Seq<usize>,
        bytes: Seq<u8>,
    ) -> Plan {
        Plan {
            walk: Walk::start(handle, width, offsets),
            job: Job::Write { bytes },
            outcome: None,
        }
    }

    /// The copy of the value itself, at the address that the walk reached.
    pub open spec fn last_copy(self) -> ActionView {
        match self.job {
            Job::Read { len } => ActionView::Fetch {
                handle: self.walk.handle,
                address: self.walk.address,
                len,
            },
            Job::Write { bytes } => ActionView::Store {
                handle: self.walk.handle,
                address: self.walk.address,
                bytes,
            },
        }
    }

    /// The copy that the transfer waits for: the walk's next pointer, or else
    /// the value. Nothing once there is an outcome.
    pub open spec fn action(self) -> Option<ActionView> {
        if self.outcome is Some {
            None
        } else {
            match self.walk.pending() {
                Some(fetch) => Some(fetch),
                None => Some(self.last_copy()),
            }
        }
    }

    /// The result of the last copy, given the event that answered it: the
    /// bytes that went across, if all of them did.
    pub open spec fn completed(self, event: EventView) -> Result<Seq<u8>, MemoryAccessError> {
        let failed = Err::<Seq<u8>, MemoryAccessError>(
            MemoryAccessError::Value { address: self.walk.address },
        );
        match self.job {
            Job::Read { len } => match event {
                EventView::Fetched(bytes) => if bytes.len() == len {
                    Ok(bytes)
                } else {
                    failed
                },
                _ => failed,
            },
            Job::Write { bytes } => match event {
                EventView::Stored => Ok(bytes),
                _ => failed,
            },
        }
    }

    /// The transfer after `event` answered its pending copy. A transfer that
    /// has an outcome ignores events.
    pub open spec fn step(self, event: EventView) -> Plan {
        if self.outcome is Some {
            self
        } else if self.walk.pending() is Some {
            let walk = self.walk.step(event);
            Plan {
                walk,
                outcome: match walk.failure {
                    Some(e) => Some(Err(e)),
                    None => None,
                },
                ..self
            }
        } else {
            Plan { outcome: Some(self.completed(event)), ..self }
        }
    }

    /// Copies that the transfer can still ask for, at most.
    pub open spec fn copies_left(self) -> nat {
        if self.outcome is Some {
            0
        } else {
            self.walk.fetches_left() + 1
        }
    }
}

/// A step keeps the shape of a transfer and its job, and uses up one of the
/// copies that were left.
pub proof fn lemma_step_keeps_plan(plan: Plan, event: EventView)
    requires
        plan.wf(),
    ensures
        plan.step(event).wf(),
        plan.step(event).job == plan.job,
        plan.step(event).walk.handle == plan.walk.handle,
        plan.step(event).walk.width == plan.walk.width,
        plan.step(event).walk.offsets == plan.walk.offsets,
        plan.action() is Some ==> plan.step(event).copies_left() < plan.copies_left(),
        plan.action() is None ==> plan.step(event) == plan,
{
}

/// A transfer of one value, one copy at a time.
pub struct Transfer {
    walk: Resolution,
    payload: Option<Vec<u8>>,
    len: usize,
    outcome: Option<Result<Vec<u8>, MemoryAccessError>>,
}

impl View for Transfer {
    type V = Plan;

    closed spec fn view(&self) -> Plan {
        Plan {
            walk: self.walk@,
            job: match self.payload {
                Some(bytes) => Job::Write { bytes: bytes@ },
                None => Job::Read { len: self.len as nat },
            },
            outcome: match self.outcome {
                Some(Ok(bytes)) => Some(Ok(bytes@)),
                Some(Err(e)) => Some(Err(e)),
                None => None,
            },
        }
    }
}

impl Transfer {
    #[verifier::type_invariant]
    spec fn inv(self) -> bool {
        self@.wf()
    }

    /// A read of `len` bytes at the end of `offsets`.
    pub fn read(handle: Handle, width: usize, offsets: Vec<usize>, len: usize) -> (transfer:
        Transfer)
        requires
            1 <= width <= 8,
            offsets@.len() >= 1,
        ensures
            transfer@ == Plan::reading(handle, width as nat, offsets@, len as nat),
    {
        let walk = Resolution::start(handle, width, offsets);
        Transfer { walk, payload: None, len, outcome: None }
    }

    /// A write of `bytes` at the end of `offsets`.
    pub fn write(handle: Handle, width: usize, offsets: Vec<usize>, bytes: Vec<u8>) -> (transfer:
        Transfer)
        requires
            1 <= width <= 8,
            offsets@.len() >= 1,
        ensures
            transfer@ == Plan::writing(handle, width as nat, offsets@, bytes@),
    {
        let walk = Resolution::start(handle, width, offsets);
        Transfer { walk, payload: Some(bytes), len: 0, outcome: None }
    }

    /// The copy to perform next. `None` once the transfer has an outcome.
    pub fn action(&self) -> (action: Option<Action>)
        ensures
            match action {
                Some(a) => self@.action() == Some(a@),
                None => self@.action() is None,
            },
    {
        if self.outcome.is_some() {
            return None;
        }
        match self.walk.action() {
            Some(fetch) => Some(fetch),
            None => {
                let handle = self.walk.handle();
                let address = self.walk.address();
                match &self.payload {
                    Some(bytes) => Some(
                        Action::Store { handle, address, bytes: slice_to_vec(bytes.as_slice()) },
                    ),
                    None => Some(Action::Fetch { handle, address, len: self.len }),
                }
            },
        }
    }

    /// Whether the transfer has ended, well or badly.
    pub fn is_finished(&self) -> (finished: bool)
        ensures
            finished == (self@.outcome is Some),
            finished == (self@.action() is None),
    {
        self.outcome.is_some()
    }

    /// Takes the answer to the pending copy and moves on.
    pub fn step(self, event: Event) -> (next: Transfer)
        ensures
            next@ == self@.step(event@),
    {
        proof {
            use_type_invariant(&self);
        }
        if self.outcome.is_some() {
            return self;
        }
        if self.walk.action().is_some() {
            proof {
                lemma_step_keeps_walk(self.walk@, event@);
            }
            let walk = self.walk.step(&event);
            let outcome = match walk.outcome() {
                Some(Err(e)) => Some(Err(e)),
                _ => None,
            };
            return Transfer { walk, payload: self.payload, len: self.len, outcome };
        }
        let failed = Err(MemoryAccessError::Value { address: self.walk.address() });
        let result = match &self.payload {
            Some(bytes) => match event {
                Event::Stored => Ok(slice_to_vec(bytes.as_slice())),
                _ => failed,
            },
            None => match event {
                Event::Fetched(bytes) => if bytes.len() == self.len {
                    Ok(bytes)
                } else {
                    failed
                },
                _ => failed,
            },
        };
        Transfer { walk: self.walk, payload: self.payload, len: self.len, outcome: Some(result) }
    }

    /// The bytes that were copied, or the failure that stopped the transfer.
    /// `None` while a copy is pending.
    pub fn outcome(&self) -> (outcome: Option<Result<Vec<u8>, MemoryAccessError>>)
        ensures
            match outcome {
                Some(Ok(bytes)) => self@.outcome == Some(
                    Ok::<Seq<u8>, MemoryAccessError>(bytes@),
                ),
                Some(Err(e)) => self@.outcome == Some(Err::<Seq<u8>, MemoryAccessError>(e)),
                None => self@.outcome is None,
            },
    {
        match &self.outcome {
            Some(Ok(bytes)) => Some(Ok(slice_to_vec(bytes.as_slice()))),
            Some(Err(e)) => Some(Err(*e)),
            None => None,
        }
    }

    /// The value that was copied, read as a `T`, or the failure that stopped
    /// the transfer. `None` while a copy is pending, and for bytes that are
    /// not one `T`.
    pub fn value<T: FixedSize>(&self) -> (value: Option<Result<T, MemoryAccessError>>)
        ensures
            value == typed::<T>(self@.outcome),
    {
        match &self.outcome {
            Some(Ok(bytes)) => if bytes.len() == T::byte_size() {
                Some(Ok(T::from_bytes(bytes.as_slice())))
            } else {
                None
            },
            Some(Err(e)) => Some(Err(*e)),
            None => None,
        }
    }
}

/// An outcome in bytes, read as an outcome in `T`.
pub open spec fn typed<T: FixedSize>(outcome: Option<Result<Seq<u8>, MemoryAccessError>>) -> Option<
    Result<T, MemoryAccessError>,
> {
    match outcome {
        Some(Ok(bytes)) => if bytes.len() == T::size() {
            Some(Ok(T::decode(bytes)))
        } else {
            None
        },
        Some(Err(e)) => Some(Err(e)),
        None => None,
    }
}

} // verus!
