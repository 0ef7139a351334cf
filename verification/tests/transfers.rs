use std::collections::HashMap;

use memblock::error::{InvalidChain, MemoryAccessError};
use memblock::memory::{read_process_memory, write_process_memory, MemoryBlock};
use memblock::protocol::{Action, Event};
use memblock::resolve::{offset_address, resolve_multilevel_pointer, Resolution};
use memblock::transfer::Transfer;
use memblock::{Arch, Auto, Handle, ProcessBlock, ToProcessBlock, X32, X64};

/// A stand-in for a target process: the bytes at the addresses that exist.
struct Target {
    cells: HashMap<u64, u8>,
    log: Vec<Action>,
}

impl Target {
    fn new() -> Target {
        Target { cells: HashMap::new(), log: Vec::new() }
    }

    fn map(&mut self, address: u64, bytes: &[u8]) {
        for (i, b) in bytes.iter().enumerate() {
            self.cells.insert(address + i as u64, *b);
        }
    }

    fn covers(&self, address: u64, len: usize) -> bool {
        (0..len as u64).all(|i| match address.checked_add(i) {
            Some(k) => self.cells.contains_key(&k),
            None => false,
        })
    }

    fn bytes(&self, address: u64, len: usize) -> Vec<u8> {
        (0..len as u64).map(|i| self.cells[&(address + i)]).collect()
    }

    fn perform(&mut self, action: Action) -> Event {
        let event = match &action {
            Action::Fetch { address, len, .. } => {
                if self.covers(*address, *len) {
                    Event::Fetched(self.bytes(*address, *len))
                } else {
                    Event::Failed
                }
            }
            Action::Store { address, bytes, .. } => {
                if self.covers(*address, bytes.len()) {
                    self.map(*address, bytes);
                    Event::Stored
                } else {
                    Event::Failed
                }
            }
        };
        self.log.push(action);
        event
    }

    fn resolve(&mut self, mut walk: Resolution) -> Resolution {
        while let Some(action) = walk.action() {
            let event = self.perform(action);
            walk = walk.step(&event);
        }
        walk
    }

    fn run(&mut self, mut transfer: Transfer) -> Transfer {
        while let Some(action) = transfer.action() {
            let event = self.perform(action);
            transfer = transfer.step(event);
        }
        transfer
    }
}

const HANDLE: Handle = Handle { raw: 0x1c4 };

fn native(value: usize) -> Vec<u8> {
    value.to_le_bytes().to_vec()
}

/// A target in which the chain `[0x6A9EC0, 0x768, 0x5560]` resolves, through
/// native pointers, to `0x30_5560`, where four bytes can be accessed.
fn game() -> Target {
    let mut target = Target::new();
    target.map(0x6A9EC0, &native(0x20_0000));
    target.map(0x20_0768, &native(0x30_0000));
    target.map(0x30_5560, &[0, 0, 0, 0]);
    target
}

/// Opens the stand-in target, which runs as process 13900 and no other.
fn open_process(pid: u32) -> Result<Handle, String> {
    if pid == 13900 {
        Ok(HANDLE)
    } else {
        Err(format!("no process {pid}"))
    }
}

#[test]
fn it_works() {
    let mut target = game();
    let handle = open_process(13900).unwrap();

    let process_block: ProcessBlock<Auto> = handle.into_process_block();

    let memory_block = process_block.memory_block(vec![0x6A9EC0, 0x768, 0x5560]);

    let done = target.run(memory_block.write(4096));
    done.value::<i32>().unwrap().unwrap();
    assert_eq!(target.bytes(0x30_5560, 4), vec![0x00, 0x10, 0x00, 0x00]);
}

#[test]
fn write_4096_then_read_returns_4096() {
    let mut target = game();
    let block: MemoryBlock<i32, Auto> = MemoryBlock::new(HANDLE, vec![0x6A9EC0, 0x768, 0x5560]);
    let written = target.run(block.write(4096));
    assert_eq!(written.outcome(), Some(Ok(vec![0x00, 0x10, 0x00, 0x00])));
    let read = target.run(block.read());
    assert_eq!(read.value::<i32>(), Some(Ok(4096)));
}

#[test]
fn direct_address_needs_no_fetch() {
    let mut target = Target::new();
    let walk = resolve_multilevel_pointer::<X64>(HANDLE, &[0x7ff6_1234_5678]);
    assert_eq!(walk.action(), None);
    assert_eq!(walk.outcome(), Some(Ok(0x7ff6_1234_5678)));
    let walk = target.resolve(walk);
    assert_eq!(walk.outcome(), Some(Ok(0x7ff6_1234_5678)));
    assert!(target.log.is_empty());
}

#[test]
fn direct_address_is_not_wrapped_to_the_pointer_width() {
    let walk = Resolution::start(HANDLE, 4, vec![usize::MAX]);
    assert_eq!(walk.outcome(), Some(Ok(usize::MAX as u64)));
}

#[test]
fn walk_fetches_one_pointer_per_offset() {
    let mut target = game();
    let walk = resolve_multilevel_pointer::<Auto>(HANDLE, &[0x6A9EC0, 0x768, 0x5560]);
    let walk = target.resolve(walk);
    assert_eq!(walk.outcome(), Some(Ok(0x30_5560)));
    let width = std::mem::size_of::<usize>();
    assert_eq!(
        target.log,
        vec![
            Action::Fetch { handle: HANDLE, address: 0x6A9EC0, len: width },
            Action::Fetch { handle: HANDLE, address: 0x20_0768, len: width },
        ]
    );
}

#[test]
fn walk_of_32_bit_pointers_fetches_four_bytes_each() {
    let mut target = Target::new();
    target.map(0x1000, &[0x00, 0x20, 0x00, 0x00, 0xaa, 0xaa, 0xaa, 0xaa]);
    target.map(0x2010, &[0x00, 0x30, 0x00, 0x00]);
    target.map(0x3004, &[0x00, 0x40, 0x00, 0x00]);
    let walk = resolve_multilevel_pointer::<X32>(HANDLE, &[0x1000, 0x10, 0x4, 0x8]);
    let walk = target.resolve(walk);
    assert_eq!(walk.outcome(), Some(Ok(0x4008)));
    assert_eq!(
        target.log,
        vec![
            Action::Fetch { handle: HANDLE, address: 0x1000, len: 4 },
            Action::Fetch { handle: HANDLE, address: 0x2010, len: 4 },
            Action::Fetch { handle: HANDLE, address: 0x3004, len: 4 },
        ]
    );
}

#[test]
fn walk_of_64_bit_pointers_fetches_eight_bytes_each() {
    let mut target = Target::new();
    target.map(0x1000, &0x0000_7ff6_0000_0000u64.to_le_bytes());
    let walk = resolve_multilevel_pointer::<X64>(HANDLE, &[0x1000, 0x28]);
    let walk = target.resolve(walk);
    assert_eq!(walk.outcome(), Some(Ok(0x0000_7ff6_0000_0028)));
    assert_eq!(target.log, vec![Action::Fetch { handle: HANDLE, address: 0x1000, len: 8 }]);
}

#[test]
fn offsets_wrap_at_the_pointer_width() {
    assert_eq!(offset_address(4, 0xffff_fff0, 0x20), 0x10);
    assert_eq!(offset_address(4, 0x1000, 0x10), 0x1010);
    assert_eq!(offset_address(8, 0xffff_fff0, 0x20), 0x1_0000_0010);
    assert_eq!(offset_address(8, u64::MAX, 2), 1);
    assert_eq!(offset_address(1, 0xff, 1), 0);
    assert_eq!(offset_address(2, 0x1234, 0xf000), 0x0234);

    let mut target = Target::new();
    target.map(0x1000, &[0xf0, 0xff, 0xff, 0xff]);
    let walk = target.resolve(resolve_multilevel_pointer::<X32>(HANDLE, &[0x1000, 0x20]));
    assert_eq!(walk.outcome(), Some(Ok(0x10)));
}

#[test]
fn walk_stops_at_a_pointer_that_cannot_be_read() {
    let mut target = Target::new();
    target.map(0x1000, &[0x00, 0x20, 0x00, 0x00]);
    let walk = resolve_multilevel_pointer::<X32>(HANDLE, &[0x1000, 0x10, 0x4, 0x8]);
    let walk = target.resolve(walk);
    assert_eq!(
        walk.outcome(),
        Some(Err(MemoryAccessError::Pointer { link: 2, address: 0x2010 }))
    );
    assert_eq!(walk.action(), None);
    assert_eq!(
        target.log,
        vec![
            Action::Fetch { handle: HANDLE, address: 0x1000, len: 4 },
            Action::Fetch { handle: HANDLE, address: 0x2010, len: 4 },
        ]
    );
}

#[test]
fn walk_treats_a_short_pointer_as_a_failure() {
    let walk = resolve_multilevel_pointer::<X32>(HANDLE, &[0x1000, 0x10]);
    let walk = walk.step(&Event::Fetched(vec![0x00, 0x20, 0x00]));
    assert_eq!(
        walk.outcome(),
        Some(Err(MemoryAccessError::Pointer { link: 1, address: 0x1000 }))
    );
    let walk = resolve_multilevel_pointer::<X32>(HANDLE, &[0x1000, 0x10]);
    let walk = walk.step(&Event::Stored);
    assert_eq!(
        walk.outcome(),
        Some(Err(MemoryAccessError::Pointer { link: 1, address: 0x1000 }))
    );
}

#[test]
fn walk_is_pending_until_its_last_pointer() {
    let walk = resolve_multilevel_pointer::<X32>(HANDLE, &[0x1000, 0x10, 0x4]);
    assert_eq!(walk.outcome(), None);
    assert_eq!(walk.handle(), HANDLE);
    let walk = walk.step(&Event::Fetched(vec![0x00, 0x20, 0x00, 0x00]));
    assert_eq!(walk.outcome(), None);
    assert_eq!(walk.action(), Some(Action::Fetch { handle: HANDLE, address: 0x2010, len: 4 }));
    let walk = walk.step(&Event::Fetched(vec![0x00, 0x30, 0x00, 0x00]));
    assert_eq!(walk.outcome(), Some(Ok(0x3004)));
    let walk = walk.step(&Event::Fetched(vec![0x00, 0x40, 0x00, 0x00]));
    assert_eq!(walk.outcome(), Some(Ok(0x3004)));
}

#[test]
fn read_walks_the_chain_and_copies_once() {
    let mut target = Target::new();
    target.map(0x1000, &[0x00, 0x20, 0x00, 0x00]);
    target.map(0x2010, &[0x78, 0x56, 0x34, 0x12, 0xff]);
    let block: MemoryBlock<u32, X32> = MemoryBlock::new(HANDLE, vec![0x1000, 0x10]);
    let done = target.run(block.read());
    assert!(done.is_finished());
    assert_eq!(done.outcome(), Some(Ok(vec![0x78, 0x56, 0x34, 0x12])));
    assert_eq!(done.value::<u32>(), Some(Ok(0x1234_5678)));
    assert_eq!(
        target.log,
        vec![
            Action::Fetch { handle: HANDLE, address: 0x1000, len: 4 },
            Action::Fetch { handle: HANDLE, address: 0x2010, len: 4 },
        ]
    );
}

#[test]
fn write_walks_the_chain_and_copies_once() {
    let mut target = Target::new();
    target.map(0x1000, &[0x00, 0x20, 0x00, 0x00]);
    target.map(0x2010, &[0, 0, 0]);
    let block: MemoryBlock<u16, X32> = MemoryBlock::new(HANDLE, vec![0x1000, 0x10]);
    let done = target.run(block.write(0xbeef));
    assert_eq!(done.outcome(), Some(Ok(vec![0xef, 0xbe])));
    assert_eq!(target.bytes(0x2010, 3), vec![0xef, 0xbe, 0]);
    assert_eq!(
        target.log,
        vec![
            Action::Fetch { handle: HANDLE, address: 0x1000, len: 4 },
            Action::Store { handle: HANDLE, address: 0x2010, bytes: vec![0xef, 0xbe] },
        ]
    );
}

#[test]
fn written_values_are_read_back() {
    let mut target = Target::new();
    target.map(0x1000, &0x5000u64.to_le_bytes());
    target.map(0x5008, &[0; 8]);

    let block: MemoryBlock<u8, X64> = MemoryBlock::new(HANDLE, vec![0x1000, 0x8]);
    target.run(block.write(0xa5));
    assert_eq!(target.run(block.read()).value::<u8>(), Some(Ok(0xa5)));

    let block: MemoryBlock<i16, X64> = MemoryBlock::new(HANDLE, vec![0x1000, 0x8]);
    target.run(block.write(-12345));
    assert_eq!(target.run(block.read()).value::<i16>(), Some(Ok(-12345)));

    let block: MemoryBlock<u64, X64> = MemoryBlock::new(HANDLE, vec![0x1000, 0x8]);
    target.run(block.write(u64::MAX - 1));
    assert_eq!(target.run(block.read()).value::<u64>(), Some(Ok(u64::MAX - 1)));

    let block: MemoryBlock<i64, X64> = MemoryBlock::new(HANDLE, vec![0x1000, 0x8]);
    target.run(block.write(i64::MIN));
    assert_eq!(target.run(block.read()).value::<i64>(), Some(Ok(i64::MIN)));
}

#[test]
fn a_write_over_its_own_pointer_moves_the_chain() {
    let mut target = Target::new();
    target.map(0x1000, &[0x00, 0x10, 0x00, 0x00]);
    target.map(0x9000, &[0x11, 0x22, 0x33, 0x44]);
    let block: MemoryBlock<u32, X32> = MemoryBlock::new(HANDLE, vec![0x1000, 0x0]);
    let written = target.run(block.write(0x9000));
    assert_eq!(written.value::<u32>(), Some(Ok(0x9000)));
    assert_eq!(target.run(block.read()).value::<u32>(), Some(Ok(0x4433_2211)));
}

#[test]
fn read_with_offset_reads_as_a_fresh_accessor_would() {
    let mut target = Target::new();
    target.map(0x1000, &[0x00, 0x20, 0x00, 0x00]);
    target.map(0x2010, &[1, 0, 0, 0, 2, 0, 0, 0, 3, 0, 0, 0]);
    let block: MemoryBlock<u32, X32> = MemoryBlock::new(HANDLE, vec![0x1000, 0x10]);
    let fresh: MemoryBlock<u32, X32> = MemoryBlock::new(HANDLE, vec![0x1000, 0x18]);

    let shifted = target.run(block.read_with_offset(8));
    let shifted_log: Vec<Action> = target.log.drain(..).collect();
    let direct = target.run(fresh.read());
    assert_eq!(shifted.value::<u32>(), Some(Ok(3)));
    assert_eq!(shifted.outcome(), direct.outcome());
    assert_eq!(shifted_log, target.log);

    assert_eq!(target.run(block.read()).value::<u32>(), Some(Ok(1)));
    assert_eq!(target.run(block.read_with_offset(4)).value::<u32>(), Some(Ok(2)));
    assert_eq!(target.run(block.read_with_offset(0)).value::<u32>(), Some(Ok(1)));
}

#[test]
fn write_with_offset_writes_as_a_fresh_accessor_would() {
    let mut target = Target::new();
    target.map(0x1000, &[0x00, 0x20, 0x00, 0x00]);
    target.map(0x2010, &[0; 12]);
    let block: MemoryBlock<i32, X32> = MemoryBlock::new(HANDLE, vec![0x1000, 0x10]);
    let done = target.run(block.write_with_offset(4, -2));
    assert_eq!(done.value::<i32>(), Some(Ok(-2)));
    assert_eq!(target.bytes(0x2010, 12), vec![0, 0, 0, 0, 0xfe, 0xff, 0xff, 0xff, 0, 0, 0, 0]);
    assert_eq!(
        target.log,
        vec![
            Action::Fetch { handle: HANDLE, address: 0x1000, len: 4 },
            Action::Store { handle: HANDLE, address: 0x2014, bytes: vec![0xfe, 0xff, 0xff, 0xff] },
        ]
    );
    let fresh: MemoryBlock<i32, X32> = MemoryBlock::new(HANDLE, vec![0x1000, 0x14]);
    assert_eq!(target.run(fresh.read()).value::<i32>(), Some(Ok(-2)));
    assert_eq!(target.run(block.read()).value::<i32>(), Some(Ok(0)));
}

#[test]
fn offset_on_a_direct_address_moves_the_address() {
    let block: MemoryBlock<u8, X64> = MemoryBlock::new(HANDLE, vec![0x4000]);
    assert_eq!(
        block.read_with_offset(0x20).action(),
        Some(Action::Fetch { handle: HANDLE, address: 0x4020, len: 1 })
    );
    assert_eq!(
        block.read().action(),
        Some(Action::Fetch { handle: HANDLE, address: 0x4000, len: 1 })
    );
}

#[test]
fn offset_beyond_the_machine_word_wraps() {
    let block: MemoryBlock<u8, Auto> = MemoryBlock::new(HANDLE, vec![usize::MAX]);
    assert_eq!(
        block.read_with_offset(2).action(),
        Some(Action::Fetch { handle: HANDLE, address: 1, len: 1 })
    );
    assert_eq!(
        block.write_with_offset(usize::MAX, 9).action(),
        Some(Action::Store { handle: HANDLE, address: usize::MAX as u64 - 1, bytes: vec![9] })
    );
}

#[test]
fn empty_chain_is_refused() {
    let refused = MemoryBlock::<u32, X32>::try_new(HANDLE, vec![]);
    assert!(matches!(refused, Err(InvalidChain)));
    let bound = MemoryBlock::<u32, X32>::try_new(HANDLE, vec![0x1000]);
    assert!(bound.is_ok());
    assert_eq!(
        bound.unwrap().read().action(),
        Some(Action::Fetch { handle: HANDLE, address: 0x1000, len: 4 })
    );
}

#[test]
fn broken_chain_stops_a_read_before_the_value() {
    let mut target = Target::new();
    target.map(0x2010, &[7, 0, 0, 0]);
    let block: MemoryBlock<u32, X32> = MemoryBlock::new(HANDLE, vec![0x1000, 0x10]);
    let done = target.run(block.read());
    let failure = MemoryAccessError::Pointer { link: 1, address: 0x1000 };
    assert_eq!(done.outcome(), Some(Err(failure)));
    assert_eq!(done.value::<u32>(), Some(Err(failure)));
    assert!(done.is_finished());
    assert_eq!(done.action(), None);
    assert_eq!(target.log, vec![Action::Fetch { handle: HANDLE, address: 0x1000, len: 4 }]);
}

#[test]
fn broken_chain_stops_a_write_before_the_value() {
    let mut target = Target::new();
    target.map(0x1000, &[0x00, 0x20, 0x00, 0x00]);
    target.map(0x3004, &[7, 7, 7, 7]);
    let block: MemoryBlock<u32, X32> = MemoryBlock::new(HANDLE, vec![0x1000, 0x10, 0x4]);
    let done = target.run(block.write(0xdead_beef));
    assert_eq!(
        done.outcome(),
        Some(Err(MemoryAccessError::Pointer { link: 2, address: 0x2010 }))
    );
    assert_eq!(target.bytes(0x3004, 4), vec![7, 7, 7, 7]);
    assert_eq!(
        target.log,
        vec![
            Action::Fetch { handle: HANDLE, address: 0x1000, len: 4 },
            Action::Fetch { handle: HANDLE, address: 0x2010, len: 4 },
        ]
    );
}

#[test]
fn failure_is_final() {
    let block: MemoryBlock<u32, X32> = MemoryBlock::new(HANDLE, vec![0x1000, 0x10]);
    let failed = block.read().step(Event::Failed);
    let failure = MemoryAccessError::Pointer { link: 1, address: 0x1000 };
    assert_eq!(failed.outcome(), Some(Err(failure)));
    let later = failed.step(Event::Fetched(vec![0x00, 0x20, 0x00, 0x00]));
    assert_eq!(later.outcome(), Some(Err(failure)));
    assert_eq!(later.action(), None);
    let later = later.step(Event::Stored);
    assert_eq!(later.outcome(), Some(Err(failure)));
}

#[test]
fn success_is_final() {
    let block: MemoryBlock<u16, X32> = MemoryBlock::new(HANDLE, vec![0x1000]);
    let done = block.read().step(Event::Fetched(vec![0x34, 0x12]));
    assert_eq!(done.value::<u16>(), Some(Ok(0x1234)));
    let later = done.step(Event::Failed);
    assert_eq!(later.value::<u16>(), Some(Ok(0x1234)));
    assert_eq!(later.action(), None);
}

#[test]
fn value_that_cannot_be_read_is_a_value_failure() {
    let mut target = Target::new();
    target.map(0x1000, &[0x00, 0x20, 0x00, 0x00]);
    target.map(0x2010, &[1, 2, 3]);
    let block: MemoryBlock<u32, X32> = MemoryBlock::new(HANDLE, vec![0x1000, 0x10]);
    let done = target.run(block.read());
    assert_eq!(done.outcome(), Some(Err(MemoryAccessError::Value { address: 0x2010 })));
    assert_eq!(target.log.len(), 2);
}

#[test]
fn value_that_cannot_be_written_is_a_value_failure() {
    let mut target = Target::new();
    target.map(0x1000, &[0x00, 0x20, 0x00, 0x00]);
    target.map(0x2010, &[1, 2, 3]);
    let block: MemoryBlock<u32, X32> = MemoryBlock::new(HANDLE, vec![0x1000, 0x10]);
    let done = target.run(block.write(0));
    assert_eq!(done.outcome(), Some(Err(MemoryAccessError::Value { address: 0x2010 })));
    assert_eq!(target.bytes(0x2010, 3), vec![1, 2, 3]);
}

#[test]
fn last_copy_must_be_answered_in_kind() {
    let block: MemoryBlock<u16, X32> = MemoryBlock::new(HANDLE, vec![0x1000]);
    let failure = MemoryAccessError::Value { address: 0x1000 };
    assert_eq!(block.read().step(Event::Fetched(vec![1])).outcome(), Some(Err(failure)));
    assert_eq!(block.read().step(Event::Fetched(vec![1, 2, 3])).outcome(), Some(Err(failure)));
    assert_eq!(block.read().step(Event::Stored).outcome(), Some(Err(failure)));
    assert_eq!(block.write(5).step(Event::Fetched(vec![5, 0])).outcome(), Some(Err(failure)));
    assert_eq!(block.write(5).step(Event::Failed).outcome(), Some(Err(failure)));
    assert_eq!(block.write(5).step(Event::Stored).outcome(), Some(Ok(vec![5, 0])));
}

#[test]
fn value_is_none_while_pending_and_for_another_size() {
    let block: MemoryBlock<u16, X32> = MemoryBlock::new(HANDLE, vec![0x1000]);
    let pending = block.read();
    assert!(!pending.is_finished());
    assert_eq!(pending.outcome(), None);
    assert_eq!(pending.value::<u16>(), None);
    let done = pending.step(Event::Fetched(vec![0x34, 0x12]));
    assert_eq!(done.value::<u32>(), None);
    assert_eq!(done.value::<i16>(), Some(Ok(0x1234)));
}

#[test]
fn free_functions_plan_what_the_accessor_plans() {
    let chain = [0x1000usize, 0x10];
    let block: MemoryBlock<u32, X64> = MemoryBlock::new(HANDLE, chain.to_vec());
    let free = read_process_memory::<u32, X64>(HANDLE, &chain);
    assert_eq!(
        free.action(),
        Some(Action::Fetch { handle: HANDLE, address: 0x1000, len: 8 })
    );
    assert_eq!(free.action(), block.read().action());
    let event = || Event::Fetched(0x2000u64.to_le_bytes().to_vec());
    let free = free.step(event());
    assert_eq!(
        free.action(),
        Some(Action::Fetch { handle: HANDLE, address: 0x2010, len: 4 })
    );
    let free = write_process_memory::<u32, X64>(HANDLE, &chain, 0x0102_0304).step(event());
    assert_eq!(
        free.action(),
        Some(Action::Store { handle: HANDLE, address: 0x2010, bytes: vec![4, 3, 2, 1] })
    );
    assert_eq!(free.action(), block.write(0x0102_0304).step(event()).action());
}

#[test]
fn transfers_built_by_hand_match_the_accessor() {
    let by_hand = Transfer::read(HANDLE, 4, vec![0x1000], 2);
    assert_eq!(
        by_hand.action(),
        Some(Action::Fetch { handle: HANDLE, address: 0x1000, len: 2 })
    );
    let by_hand = Transfer::write(HANDLE, 4, vec![0x1000], vec![1, 2, 3]);
    assert_eq!(
        by_hand.action(),
        Some(Action::Store { handle: HANDLE, address: 0x1000, bytes: vec![1, 2, 3] })
    );
}

#[test]
fn process_block_hands_its_capability_on() {
    let block: ProcessBlock<X32> = ProcessBlock::from(HANDLE);
    assert_eq!(block.handle(), HANDLE);
    let other = Handle { raw: 9 };
    let block: ProcessBlock<X64> = other.into_process_block();
    assert_eq!(block.handle(), other);
    let accessor = block.memory_block::<u8>(vec![0x10, 0x20]);
    assert_eq!(accessor.handle(), other);
    assert_eq!(
        accessor.read().action(),
        Some(Action::Fetch { handle: other, address: 0x10, len: 8 })
    );
}

#[test]
fn pointer_widths() {
    assert_eq!(<X32 as Arch>::pointer_size(), 4);
    assert_eq!(<X64 as Arch>::pointer_size(), 8);
    assert_eq!(<Auto as Arch>::pointer_size(), std::mem::size_of::<usize>());
}
