//! What the operations do to a target process, stated against a model of its
//! memory.
//!
//! An [`AddressSpace`] is the memory of one target process at one moment. It
//! answers each copy as a whole: a copy succeeds if every byte of its extent
//! can be accessed, and fails otherwise, leaving the memory as it was. Letting
//! a walk or a transfer run against such a memory, each of its actions
//! answered in turn, gives the copies it performs and the outcome it reaches.

use vstd::prelude::*;
use crate::bytes::le_value;
use crate::error::MemoryAccessError;
use crate::process::Handle;
use crate::protocol::{ActionView, EventView};
use crate::resolve::{lemma_step_keeps_walk, next_address, Walk};
use crate::transfer::{lemma_step_keeps_plan, typed, Job, Plan};
use crate::value::FixedSize;

verus! {

/// The memory of a target process at one moment: the addresses that can be
/// accessed, and the byte at each.
pub struct AddressSpace {
    pub cells: Map<int, u8>,
}

impl AddressSpace {
    /// Whether all `len` bytes from `address` on can be accessed.
    pub open spec fn covers(self, address: u64, len: nat) -> bool {
        forall|k: int| address <= k < address + len ==> #[trigger] self.cells.dom().contains(k)
    }

    /// The `len` bytes from `address` on.
    pub open spec fn bytes_at(self, address: u64, len: nat) -> Seq<u8> {
        Seq::new(len, |i: int| self.cells[address + i])
    }

    /// This memory with `bytes` written from `address` on.
    pub open spec fn with_bytes(self, address: u64, bytes: Seq<u8>) -> AddressSpace {
        AddressSpace {
            cells: Map::new(
                |k: int| self.cells.dom().contains(k),
                |k: int|
                    if address <= k < address + bytes.len() {
                        bytes[k - address]
                    } else {
                        self.cells[k]
                    },
            ),
        }
    }

    /// How this memory answers a copy.
    pub open spec fn answer(self, action: ActionView) -> EventView {
        match action {
            ActionView::Fetch { handle, address, len } => if self.covers(address, len) {
                EventView::Fetched(self.bytes_at(address, len))
            } else {
                EventView::Failed
            },
            ActionView::Store { handle, address, bytes } => if self.covers(address, bytes.len()) {
                EventView::Stored
            } else {
                EventView::Failed
            },
        }
    }

    /// This memory after a copy: changed by a store that succeeds, and by
    /// nothing else.
    pub open spec fn after(self, action: ActionView) -> AddressSpace {
        match action {
            ActionView::Store { handle, address, bytes } => if self.covers(address, bytes.len()) {
                self.with_bytes(address, bytes)
            } else {
                self
            },
            _ => self,
        }
    }
}

/// The address that the first `k + 1` elements of a chain name in `space`:
/// the first element itself, and for each further offset the pointer stored at
/// the address so far, plus that offset. `None` if a pointer on the way cannot
/// be read.
pub open spec fn chain_address(space: AddressSpace, width: nat, offsets: Seq<usize>, k: nat) -> Option<
    u64,
>
    decreases k,
{
    if k == 0 {
        Some(offsets[0] as u64)
    } else {
        match chain_address(space, width, offsets, (k - 1) as nat) {
            Some(base) => if space.covers(base, width) {
                Some(next_address(width, le_value(space.bytes_at(base, width)), offsets[k as int]))
            } else {
                None
            },
            None => None,
        }
    }
}

/// The fetch of the pointer that link `i + 1` of a chain starts from.
pub open spec fn pointer_fetch(
    space: AddressSpace,
    handle: Handle,
    width: nat,
    offsets: Seq<usize>,
    i: nat,
) -> ActionView {
    ActionView::Fetch {
        handle,
        address: chain_address(space, width, offsets, i).unwrap(),
        len: width,
    }
}

/// The fetches of `count` pointers in a row, the first of them at the address
/// that the first `from + 1` elements of the chain name.
pub open spec fn pointer_fetches(
    space: AddressSpace,
    handle: Handle,
    width: nat,
    offsets: Seq<usize>,
    from: nat,
    count: nat,
) -> Seq<ActionView> {
    Seq::new(count, |i: int| pointer_fetch(space, handle, width, offsets, (from + i) as nat))
}

/// A walk that was let run, with the fetches it performed, in order.
pub struct Trail {
    pub walk: Walk,
    pub trace: Seq<ActionView>,
}

/// Lets `walk` run against `space` until it has an outcome.
pub open spec fn walk_through(walk: Walk, space: AddressSpace) -> Trail
    decreases walk.fetches_left(),
{
    match walk.pending() {
        None => Trail { walk, trace: Seq::empty() },
        Some(fetch) => {
            let rest = walk_through(walk.step(space.answer(fetch)), space);
            Trail { walk: rest.walk, trace: seq![fetch] + rest.trace }
        },
    }
}

/// A transfer that was let run, with the memory it left and the copies it
/// performed, in order.
pub struct Run {
    pub plan: Plan,
    pub space: AddressSpace,
    pub trace: Seq<ActionView>,
}

/// Lets `plan` run against `space` until it has an outcome.
pub open spec fn carry_out(plan: Plan, space: AddressSpace) -> Run
    decreases plan.copies_left(),
{
    match plan.action() {
        None => Run { plan, space, trace: Seq::empty() },
        Some(action) => {
            let rest = carry_out(plan.step(space.answer(action)), space.after(action));
            Run { plan: rest.plan, space: rest.space, trace: seq![action] + rest.trace }
        },
    }
}

/// A chain that resolves up to some link resolves up to every earlier one.
pub proof fn lemma_chain_prefix(
    space: AddressSpace,
    width: nat,
    offsets: Seq<usize>,
    j: nat,
    k: nat,
)
    requires
        j <= k,
        chain_address(space, width, offsets, k) is Some,
    ensures
        chain_address(space, width, offsets, j) is Some,
    decreases k,
{
    if j < k {
        lemma_chain_prefix(space, width, offsets, j, (k - 1) as nat);
    }
}

/// A walk that stands where the chain says, in a memory in which the whole
/// chain resolves, fetches each remaining pointer once, in order, and ends at
/// the address that the chain names.
proof fn lemma_walk_resolves_from(walk: Walk, space: AddressSpace)
    requires
        walk.wf(),
        walk.failure is None,
        chain_address(space, walk.width, walk.offsets, (walk.link - 1) as nat) == Some(
            walk.address,
        ),
        chain_address(space, walk.width, walk.offsets, (walk.offsets.len() - 1) as nat) is Some,
    ensures
        ({
            let done = walk_through(walk, space);
            &&& done.walk.wf()
            &&& done.walk.handle == walk.handle
            &&& done.walk.width == walk.width
            &&& done.walk.offsets == walk.offsets
            &&& done.walk.failure is None
            &&& done.walk.outcome() == Some(
                Ok::<u64, MemoryAccessError>(
                    chain_address(
                        space,
                        walk.width,
                        walk.offsets,
                        (walk.offsets.len() - 1) as nat,
                    ).unwrap(),
                ),
            )
            &&& done.trace == pointer_fetches(
                space,
                walk.handle,
                walk.width,
                walk.offsets,
                (walk.link - 1) as nat,
                (walk.offsets.len() - walk.link) as nat,
            )
        }),
    decreases walk.offsets.len() - walk.link,
{
    let done = walk_through(walk, space);
    let n = (walk.offsets.len() - 1) as nat;
    let from = (walk.link - 1) as nat;
    let expected = pointer_fetches(
        space,
        walk.handle,
        walk.width,
        walk.offsets,
        from,
        (walk.offsets.len() - walk.link) as nat,
    );
    if walk.link == walk.offsets.len() {
        assert(done.trace =~= expected);
    } else {
        let fetch = walk.pending().unwrap();
        lemma_chain_prefix(space, walk.width, walk.offsets, walk.link, n);
        let next = walk.step(space.answer(fetch));
        lemma_step_keeps_walk(walk, space.answer(fetch));
        assert(space.covers(walk.address, walk.width));
        assert(next == walk.advanced(space.bytes_at(walk.address, walk.width)));
        assert(chain_address(space, walk.width, walk.offsets, walk.link) == Some(next.address));
        lemma_walk_resolves_from(next, space);
        let rest = walk_through(next, space);
        assert(done.trace == seq![fetch] + rest.trace);
        assert(fetch == pointer_fetch(space, walk.handle, walk.width, walk.offsets, from));
        assert(done.trace =~= expected);
    }
}

/// A walk that stands where the chain says, in a memory in which the pointer
/// of link `k` cannot be read, fetches each pointer up to that one, meets the
/// failure there and fetches nothing further.
proof fn lemma_walk_breaks_from(walk: Walk, space: AddressSpace, k: nat)
    requires
        walk.wf(),
        walk.failure is None,
        walk.link <= k < walk.offsets.len(),
        chain_address(space, walk.width, walk.offsets, (walk.link - 1) as nat) == Some(
            walk.address,
        ),
        chain_address(space, walk.width, walk.offsets, (k - 1) as nat) is Some,
        !space.covers(
            chain_address(space, walk.width, walk.offsets, (k - 1) as nat).unwrap(),
            walk.width,
        ),
    ensures
        ({
            let done = walk_through(walk, space);
            let base = chain_address(space, walk.width, walk.offsets, (k - 1) as nat).unwrap();
            &&& done.walk.wf()
            &&& done.walk.handle == walk.handle
            &&& done.walk.width == walk.width
            &&& done.walk.offsets == walk.offsets
            &&& done.walk.failure == Some(
                MemoryAccessError::Pointer { link: k as usize, address: base },
            )
            &&& done.trace == pointer_fetches(
                space,
                walk.handle,
                walk.width,
                walk.offsets,
                (walk.link - 1) as nat,
                (k - walk.link + 1) as nat,
            )
        }),
    decreases k - walk.link,
{
    let done = walk_through(walk, space);
    let from = (walk.link - 1) as nat;
    let expected = pointer_fetches(
        space,
        walk.handle,
        walk.width,
        walk.offsets,
        from,
        (k - walk.link + 1) as nat,
    );
    let fetch = walk.pending().unwrap();
    let next = walk.step(space.answer(fetch));
    let rest = walk_through(next, space);
    lemma_step_keeps_walk(walk, space.answer(fetch));
    assert(done.trace == seq![fetch] + rest.trace);
    assert(fetch == pointer_fetch(space, walk.handle, walk.width, walk.offsets, from));
    if walk.link == k {
        assert(next == walk.broken());
        assert(rest.trace =~= Seq::<ActionView>::empty());
        assert(done.trace =~= expected);
    } else {
        lemma_chain_prefix(space, walk.width, walk.offsets, walk.link, (k - 1) as nat);
        assert(space.covers(walk.address, walk.width));
        assert(next == walk.advanced(space.bytes_at(walk.address, walk.width)));
        assert(chain_address(space, walk.width, walk.offsets, walk.link) == Some(next.address));
        lemma_walk_breaks_from(next, space, k);
        assert(done.trace =~= expected);
    }
}

/// A chain of one element is a direct address: it resolves to that element,
/// and no pointer is fetched for it.
pub proof fn theorem_direct_address(
    handle: Handle,
    width: nat,
    offsets: Seq<usize>,
    space: AddressSpace,
)
    requires
        offsets.len() == 1,
    ensures
        Walk::start(handle, width, offsets).pending() is None,
        Walk::start(handle, width, offsets).outcome() == Some(
            Ok::<u64, MemoryAccessError>(offsets[0] as u64),
        ),
        walk_through(Walk::start(handle, width, offsets), space).trace.len() == 0,
        walk_through(Walk::start(handle, width, offsets), space).walk == Walk::start(
            handle,
            width,
            offsets,
        ),
{
}

/// Where every pointer of a chain `[a, o1, .., on]` can be read, the walk
/// fetches exactly `n` pointers, each one pointer wide, each at the address
/// that the chain names up to there, and ends at the address that the whole
/// chain names.
pub proof fn theorem_walk_resolves(
    handle: Handle,
    width: nat,
    offsets: Seq<usize>,
    space: AddressSpace,
)
    requires
        1 <= width <= 8,
        offsets.len() >= 1,
        chain_address(space, width, offsets, (offsets.len() - 1) as nat) is Some,
    ensures
        ({
            let done = walk_through(Walk::start(handle, width, offsets), space);
            let n = (offsets.len() - 1) as nat;
            &&& done.walk.outcome() == Some(
                Ok::<u64, MemoryAccessError>(chain_address(space, width, offsets, n).unwrap()),
            )
            &&& done.trace.len() == n
            &&& done.trace == pointer_fetches(space, handle, width, offsets, 0, n)
        }),
{
    lemma_walk_resolves_from(Walk::start(handle, width, offsets), space);
}

/// Where the pointer of link `k` of a chain cannot be read, the walk fetches
/// the `k` pointers up to that one and no more, and ends with the failure at
/// the address where that pointer should have been.
pub proof fn theorem_walk_breaks(
    handle: Handle,
    width: nat,
    offsets: Seq<usize>,
    space: AddressSpace,
    k: nat,
)
    requires
        1 <= width <= 8,
        1 <= k < offsets.len(),
        chain_address(space, width, offsets, (k - 1) as nat) is Some,
        !space.covers(chain_address(space, width, offsets, (k - 1) as nat).unwrap(), width),
    ensures
        ({
            let done = walk_through(Walk::start(handle, width, offsets), space);
            let base = chain_address(space, width, offsets, (k - 1) as nat).unwrap();
            &&& done.walk.outcome() == Some(
                Err::<u64, MemoryAccessError>(
                    MemoryAccessError::Pointer { link: k as usize, address: base },
                ),
            )
            &&& done.trace.len() == k
            &&& done.trace == pointer_fetches(space, handle, width, offsets, 0, k)
        }),
{
    lemma_chain_prefix(space, width, offsets, 0, (k - 1) as nat);
    lemma_walk_breaks_from(Walk::start(handle, width, offsets), space, k);
}

/// A transfer that has copied nothing yet runs as its walk runs, and then, if
/// the walk reached an address, performs the one copy of the value there.
proof fn lemma_run_follows_walk(plan: Plan, space: AddressSpace)
    requires
        plan.wf(),
        plan.outcome is None,
    ensures
        ({
            let trail = walk_through(plan.walk, space);
            let run = carry_out(plan, space);
            let at_end = Plan { walk: trail.walk, ..plan };
            let copy = at_end.last_copy();
            match trail.walk.failure {
                Some(e) => {
                    &&& run.plan == Plan { outcome: Some(Err(e)), ..at_end }
                    &&& run.space == space
                    &&& run.trace == trail.trace
                },
                None => {
                    &&& run.plan == Plan {
                        outcome: Some(at_end.completed(space.answer(copy))),
                        ..at_end
                    }
                    &&& run.space == space.after(copy)
                    &&& run.trace == trail.trace.push(copy)
                },
            }
        }),
    decreases plan.walk.fetches_left(),
{
    let trail = walk_through(plan.walk, space);
    let run = carry_out(plan, space);
    match plan.walk.pending() {
        None => {
            let copy = plan.last_copy();
            let next = plan.step(space.answer(copy));
            let rest = carry_out(next, space.after(copy));
            assert(rest.trace =~= Seq::<ActionView>::empty());
            assert(run.trace =~= trail.trace.push(copy));
        },
        Some(fetch) => {
            let event = space.answer(fetch);
            let next = plan.step(event);
            lemma_step_keeps_walk(plan.walk, event);
            lemma_step_keeps_plan(plan, event);
            assert(space.after(fetch) == space);
            let rest_trail = walk_through(next.walk, space);
            let rest = carry_out(next, space);
            assert(trail.trace == seq![fetch] + rest_trail.trace);
            assert(run.trace == seq![fetch] + rest.trace);
            if next.outcome is None {
                lemma_run_follows_walk(next, space);
                let copy = (Plan { walk: rest_trail.walk, ..plan }).last_copy();
                if rest_trail.walk.failure is None {
                    assert(run.trace =~= trail.trace.push(copy));
                }
            } else {
                assert(rest_trail.trace =~= Seq::<ActionView>::empty());
                assert(rest.trace =~= Seq::<ActionView>::empty());
            }
        },
    }
}

/// Where the chain resolves, a read fetches each pointer of the chain once and
/// then the value, once, at the address that the chain names. It yields the
/// bytes found there, or the failure of that last copy, and leaves the memory
/// as it was.
pub proof fn theorem_read(
    handle: Handle,
    width: nat,
    offsets: Seq<usize>,
    len: nat,
    space: AddressSpace,
)
    requires
        1 <= width <= 8,
        offsets.len() >= 1,
        chain_address(space, width, offsets, (offsets.len() - 1) as nat) is Some,
    ensures
        ({
            let run = carry_out(Plan::reading(handle, width, offsets, len), space);
            let n = (offsets.len() - 1) as nat;
            let address = chain_address(space, width, offsets, n).unwrap();
            &&& run.space == space
            &&& run.trace == pointer_fetches(space, handle, width, offsets, 0, n).push(
                ActionView::Fetch { handle, address, len },
            )
            &&& run.plan.outcome == Some(
                if space.covers(address, len) {
                    Ok::<Seq<u8>, MemoryAccessError>(space.bytes_at(address, len))
                } else {
                    Err::<Seq<u8>, MemoryAccessError>(MemoryAccessError::Value { address })
                },
            )
        }),
{
    let plan = Plan::reading(handle, width, offsets, len);
    lemma_walk_resolves_from(plan.walk, space);
    lemma_run_follows_walk(plan, space);
}

/// Where the chain resolves, a write fetches each pointer of the chain once
/// and then stores the value, once, at the address that the chain names. If
/// that store succeeds the memory holds the bytes there and is otherwise as
/// it was; if it fails the memory is as it was.
pub proof fn theorem_write(
    handle: Handle,
    width: nat,
    offsets: Seq<usize>,
    bytes: Seq<u8>,
    space: AddressSpace,
)
    requires
        1 <= width <= 8,
        offsets.len() >= 1,
        chain_address(space, width, offsets, (offsets.len() - 1) as nat) is Some,
    ensures
        ({
            let run = carry_out(Plan::writing(handle, width, offsets, bytes), space);
            let n = (offsets.len() - 1) as nat;
            let address = chain_address(space, width, offsets, n).unwrap();
            &&& run.trace == pointer_fetches(space, handle, width, offsets, 0, n).push(
                ActionView::Store { handle, address, bytes },
            )
            &&& space.covers(address, bytes.len()) ==> {
                &&& run.plan.outcome == Some(Ok::<Seq<u8>, MemoryAccessError>(bytes))
                &&& run.space == space.with_bytes(address, bytes)
            }
            &&& !space.covers(address, bytes.len()) ==> {
                &&& run.plan.outcome == Some(
                    Err::<Seq<u8>, MemoryAccessError>(MemoryAccessError::Value { address }),
                )
                &&& run.space == space
            }
        }),
{
    let plan = Plan::writing(handle, width, offsets, bytes);
    lemma_walk_resolves_from(plan.walk, space);
    lemma_run_follows_walk(plan, space);
}

/// Where the pointer of link `k` of the chain cannot be read, a transfer,
/// whether it reads or writes, fetches the `k` pointers up to that one and
/// performs no copy after it: the value is never touched, the memory stays as
/// it was, and the outcome is the failure of that dereference.
pub proof fn theorem_broken_chain(
    handle: Handle,
    width: nat,
    offsets: Seq<usize>,
    job: Job,
    space: AddressSpace,
    k: nat,
)
    requires
        1 <= width <= 8,
        1 <= k < offsets.len(),
        chain_address(space, width, offsets, (k - 1) as nat) is Some,
        !space.covers(chain_address(space, width, offsets, (k - 1) as nat).unwrap(), width),
    ensures
        ({
            let plan = Plan { walk: Walk::start(handle, width, offsets), job, outcome: None };
            let run = carry_out(plan, space);
            let base = chain_address(space, width, offsets, (k - 1) as nat).unwrap();
            &&& run.plan.outcome == Some(
                Err::<Seq<u8>, MemoryAccessError>(
                    MemoryAccessError::Pointer { link: k as usize, address: base },
                ),
            )
            &&& run.plan.action() is None
            &&& run.trace == pointer_fetches(space, handle, width, offsets, 0, k)
            &&& run.space == space
        }),
{
    let plan = Plan { walk: Walk::start(handle, width, offsets), job, outcome: None };
    lemma_chain_prefix(space, width, offsets, 0, (k - 1) as nat);
    lemma_walk_breaks_from(plan.walk, space, k);
    lemma_run_follows_walk(plan, space);
}

/// Whatever answers the fetch of a pointer other than one pointer's worth of
/// bytes ends the transfer there: its outcome is the failure of that
/// dereference, it asks for nothing more, and later events leave it as it is.
pub proof fn theorem_failure_is_final(plan: Plan, event: EventView, later: EventView)
    requires
        plan.wf(),
        plan.outcome is None,
        plan.walk.pending() is Some,
        !(event matches EventView::Fetched(bytes) && bytes.len() == plan.walk.width),
    ensures
        plan.step(event).outcome == Some(
            Err::<Seq<u8>, MemoryAccessError>(
                MemoryAccessError::Pointer {
                    link: plan.walk.link as usize,
                    address: plan.walk.address,
                },
            ),
        ),
        plan.step(event).action() is None,
        plan.step(event).step(later) == plan.step(event),
{
}

/// Writing bytes and reading as many back from the same place gives those
/// bytes.
pub proof fn lemma_written_bytes_are_read(space: AddressSpace, address: u64, bytes: Seq<u8>)
    requires
        space.covers(address, bytes.len()),
    ensures
        space.with_bytes(address, bytes).covers(address, bytes.len()),
        space.with_bytes(address, bytes).bytes_at(address, bytes.len()) == bytes,
{
    assert(space.with_bytes(address, bytes).bytes_at(address, bytes.len()) =~= bytes);
}

/// Whether two extents share no byte.
pub open spec fn apart(a: u64, n: nat, b: u64, m: nat) -> bool {
    a + n <= b || b + m <= a
}

/// A write that touches none of the pointers of a chain leaves the chain where
/// it was: it resolves in the memory after the write as it did before.
pub proof fn lemma_chain_survives_write(
    space: AddressSpace,
    width: nat,
    offsets: Seq<usize>,
    k: nat,
    address: u64,
    bytes: Seq<u8>,
)
    requires
        chain_address(space, width, offsets, k) is Some,
        forall|i: nat|
            i < k ==> apart(
                #[trigger] chain_address(space, width, offsets, i).unwrap(),
                width,
                address,
                bytes.len(),
            ),
    ensures
        chain_address(space.with_bytes(address, bytes), width, offsets, k) == chain_address(
            space,
            width,
            offsets,
            k,
        ),
    decreases k,
{
    if k > 0 {
        let j = (k - 1) as nat;
        let after = space.with_bytes(address, bytes);
        lemma_chain_prefix(space, width, offsets, j, k);
        lemma_chain_survives_write(space, width, offsets, j, address, bytes);
        let base = chain_address(space, width, offsets, j).unwrap();
        assert(apart(base, width, address, bytes.len()));
        assert(space.covers(base, width));
        assert(after.covers(base, width));
        assert(after.bytes_at(base, width) =~= space.bytes_at(base, width));
    }
}

/// A value that was written is the value that is read: where the chain
/// resolves to a place that can hold a `T`, and still resolves to that place
/// once the value is written there, the write succeeds and a read that
/// follows it yields the bytes that were written, which are the value.
pub proof fn theorem_write_then_read<T: FixedSize>(
    handle: Handle,
    width: nat,
    offsets: Seq<usize>,
    value: T,
    space: AddressSpace,
)
    requires
        1 <= width <= 8,
        offsets.len() >= 1,
        chain_address(space, width, offsets, (offsets.len() - 1) as nat) is Some,
        space.covers(
            chain_address(space, width, offsets, (offsets.len() - 1) as nat).unwrap(),
            T::size(),
        ),
        chain_address(
            space.with_bytes(
                chain_address(space, width, offsets, (offsets.len() - 1) as nat).unwrap(),
                value.encode(),
            ),
            width,
            offsets,
            (offsets.len() - 1) as nat,
        ) == chain_address(space, width, offsets, (offsets.len() - 1) as nat),
    ensures
        ({
            let written = carry_out(Plan::writing(handle, width, offsets, value.encode()), space);
            let read = carry_out(Plan::reading(handle, width, offsets, T::size()), written.space);
            &&& written.plan.outcome == Some(Ok::<Seq<u8>, MemoryAccessError>(value.encode()))
            &&& read.plan.outcome == Some(Ok::<Seq<u8>, MemoryAccessError>(value.encode()))
            &&& typed::<T>(read.plan.outcome) == Some(Ok::<T, MemoryAccessError>(value))
            &&& read.space == written.space
        }),
{
    let n = (offsets.len() - 1) as nat;
    let address = chain_address(space, width, offsets, n).unwrap();
    T::lemma_encode_decode(value);
    theorem_write(handle, width, offsets, value.encode(), space);
    lemma_written_bytes_are_read(space, address, value.encode());
    theorem_read(handle, width, offsets, T::size(), space.with_bytes(address, value.encode()));
}

} // verus!
