use arna::state::{COMMIT_CHUNK, PAGE_SIZE};
use arna::sys::{Arch, OsCall, OsReply, Target};
use arna::virtual_mem::Region;
use arna::{Arna, BackingMode, BoxMemory, Layout, Slots, SliceMemory, OOM};
use std::cell::RefCell;

const LINUX: Target = Target::Linux(Arch::X86_64);

fn unexpected(call: OsCall) -> OsReply {
    panic!("no call was expected: {:?}", call)
}

fn grant(_: OsCall) -> OsReply {
    OsReply { value: 0, last_error: 0 }
}

fn refuse(_: OsCall) -> OsReply {
    OsReply { value: usize::MAX, last_error: 22 }
}

fn commit_call(addr: usize, len: usize) -> OsCall {
    OsCall::Syscall { number: 10, a0: addr, a1: len, a2: 3, a3: 0, a4: 0, a5: 0 }
}

fn over_slice(addr: usize, len: usize) -> Arna {
    Arna::from(SliceMemory::new(Region { addr, len }).unwrap())
}

fn over_box(addr: usize, len: usize) -> Arna {
    Arna::from(BoxMemory::new(Region { addr, len }).unwrap())
}

fn over_virtual(addr: usize, len: usize) -> Arna {
    Arna::new_virtual(len, LINUX, |_: OsCall| OsReply { value: addr, last_error: 0 }).unwrap()
}

fn layout(size: usize, align: usize) -> Layout {
    Layout::from_size_align(size, align).unwrap()
}

#[test]
fn layouts() {
    assert!(Layout::from_size_align(0, 0).is_none());
    assert!(Layout::from_size_align(8, 3).is_none());
    assert!(Layout::from_size_align(8, 24).is_none());
    assert!(Layout::from_size_align(isize::MAX as usize, 1).is_some());
    assert!(Layout::from_size_align(isize::MAX as usize, 2).is_none());
    assert!(Layout::from_size_align(isize::MAX as usize - 1, 2).is_some());
    assert!(Layout::from_size_align(0, 1 << (usize::BITS - 1)).is_some());
    assert!(Layout::from_size_align(1, 1 << (usize::BITS - 1)).is_none());
    let l = Layout::array::<u32>(5).unwrap();
    assert_eq!((l.size(), l.align()), (20, std::mem::align_of::<u32>()));
    assert!(Layout::array::<u32>(usize::MAX).is_none());
    assert!(Layout::array::<u8>(isize::MAX as usize + 1).is_none());
    assert!(Layout::array::<()>(usize::MAX).is_some());
    for (size, align) in [(0, 1), (7, 4), (4096, 4096), (100, 64)] {
        let std_layout = std::alloc::Layout::from_size_align(size, align).unwrap();
        let own = layout(size, align);
        assert_eq!((own.size(), own.align()), (std_layout.size(), std_layout.align()));
    }
}

#[test]
fn backing_modes() {
    assert_eq!(Arna::default().backing_mode(), BackingMode::Mmap);
    assert_eq!(over_slice(64, 0).backing_mode(), BackingMode::Slice);
    assert_eq!(over_slice(64, 100).backing_mode(), BackingMode::Slice);
    assert_eq!(over_box(64, 0).backing_mode(), BackingMode::Box);
    assert_eq!(over_box(64, 100).backing_mode(), BackingMode::Box);
    assert_eq!(over_virtual(0x10_0000, PAGE_SIZE).backing_mode(), BackingMode::Mmap);
}

#[test]
fn memory_must_lie_in_the_address_space() {
    assert!(SliceMemory::new(Region { addr: usize::MAX - 4, len: 4 }).is_some());
    assert!(SliceMemory::new(Region { addr: usize::MAX - 3, len: 4 }).is_none());
    assert!(BoxMemory::new(Region { addr: usize::MAX - 3, len: 4 }).is_none());
    assert!(BoxMemory::new(Region { addr: 1, len: isize::MAX as usize + 1 }).is_none());
}

#[test]
fn blocks_are_aligned_and_follow_each_other() {
    let mut arna = over_slice(0x1003, 64);
    assert_eq!(arna.alloc_raw(layout(5, 1), LINUX, unexpected), Ok(0x1003));
    assert_eq!(arna.alloc_raw(layout(8, 8), LINUX, unexpected), Ok(0x1008));
    assert_eq!(arna.alloc_raw(layout(1, 1), LINUX, unexpected), Ok(0x1010));
    assert_eq!(arna.alloc_raw(layout(0, 16), LINUX, unexpected), Ok(0x1020));
    assert_eq!(arna.alloc_raw(layout(35, 1), LINUX, unexpected), Ok(0x1020));
    assert_eq!(arna.alloc_raw(layout(1, 1), LINUX, unexpected), Err(OOM));
}

#[test]
fn slices_and_boxes_are_never_committed() {
    let mut arna = over_slice(0x1000, 100);
    assert_eq!(arna.alloc_raw(layout(100, 1), LINUX, unexpected), Ok(0x1000));
    assert_eq!(arna.alloc_raw(layout(0, 1), LINUX, unexpected), Ok(0x1064));
    assert_eq!(arna.alloc_raw(layout(1, 1), LINUX, unexpected), Err(OOM));
    let mut arna = over_slice(0x1000, 8);
    assert_eq!(arna.alloc_raw(layout(10, 1), LINUX, unexpected), Err(OOM));
    assert_eq!(arna.end_of(layout(0, 1)), Some(8));
    let mut arna = over_box(0x1000, 100);
    assert_eq!(arna.alloc_raw(layout(isize::MAX as usize, 1), LINUX, unexpected), Err(OOM));
    assert_eq!(arna.end_of(layout(0, 1)), Some(100));
}

#[test]
fn a_block_that_is_too_large_uses_up_a_virtual_arena() {
    let calls = RefCell::new(Vec::new());
    let mut arna = over_virtual(0x10_0000, 2 * PAGE_SIZE);
    let r = arna.alloc_raw(layout(3 * PAGE_SIZE, 1), LINUX, |call: OsCall| {
        calls.borrow_mut().push(call);
        OsReply { value: 0, last_error: 0 }
    });
    assert_eq!(r, Err(OOM));
    assert_eq!(*calls.borrow(), vec![commit_call(0x10_0000, 2 * PAGE_SIZE)]);
    assert_eq!(arna.end_of(layout(0, 1)), Some(2 * PAGE_SIZE));
}

#[test]
fn a_failed_commit_leaves_the_bytes_taken() {
    let mut arna = over_virtual(0x10_0000, PAGE_SIZE);
    assert_eq!(arna.alloc_raw(layout(200, 1), LINUX, refuse), Err(OOM));
    assert_eq!(arna.end_of(layout(0, 1)), Some(200));
    assert_eq!(arna.alloc_raw(layout(1, 1), LINUX, refuse), Err(OOM));
    assert_eq!(arna.end_of(layout(0, 1)), Some(201));
    assert_eq!(arna.alloc_raw(layout(1, 1), LINUX, grant), Ok(0x10_00c9));
}

#[test]
fn the_halves_of_an_allocation() {
    let mut arna = over_slice(0x1004, 100);
    assert_eq!(arna.begin_alloc(layout(8, 8)), (4, None));
    assert_eq!(arna.finish_alloc(4, None, Ok(())), Ok(0x1008));
    assert_eq!(arna.begin_alloc(layout(200, 1)), (12, None));
    assert_eq!(arna.end_of(layout(0, 1)), Some(212));
    assert_eq!(arna.finish_alloc(12, None, Ok(())), Err(OOM));
    assert_eq!(arna.end_of(layout(0, 1)), Some(100));

    let failed = arna::virtual_mem::reserve(0, LINUX, unexpected).unwrap_err();
    let all = Some(Region { addr: 0x10_0000, len: PAGE_SIZE });
    let mut arna = over_virtual(0x10_0000, PAGE_SIZE);
    assert_eq!(arna.begin_alloc(layout(16, 1)), (0, all));
    assert_eq!(arna.finish_alloc(0, all, Err(failed)), Err(OOM));
    assert_eq!(arna.begin_alloc(layout(16, 1)), (16, all));
    assert_eq!(arna.finish_alloc(16, all, Ok(())), Ok(0x10_0010));
    assert_eq!(arna.begin_alloc(layout(16, 1)), (32, None));
    assert_eq!(OOM::from(failed), OOM);
}

#[test]
fn requests_that_cannot_be_reckoned() {
    let mut arna = over_virtual(0x10_0000, PAGE_SIZE);
    let half = layout(isize::MAX as usize, 1);
    assert_eq!(arna.alloc_raw(half, LINUX, refuse), Err(OOM));
    assert_eq!(arna.alloc_raw(half, LINUX, refuse), Err(OOM));
    assert_eq!(arna.end_of(layout(1, 1)), Some(usize::MAX));
    assert_eq!(arna.end_of(layout(2, 1)), None);
    assert_eq!(arna.end_of(half), None);
}

#[test]
fn virtual_arena_commits_before_it_hands_out() {
    let calls = RefCell::new(Vec::new());
    let os = |call: OsCall| {
        calls.borrow_mut().push(call);
        OsReply { value: 0, last_error: 0 }
    };
    let mut arna = over_virtual(0x10_0000, 64 * PAGE_SIZE);
    assert_eq!(arna.alloc_raw(layout(16, 16), LINUX, os), Ok(0x10_0000));
    assert_eq!(*calls.borrow(), vec![commit_call(0x10_0000, COMMIT_CHUNK)]);
    // What is committed is not asked for again.
    assert_eq!(arna.alloc_raw(layout(COMMIT_CHUNK - 16, 1), LINUX, os), Ok(0x10_0010));
    assert_eq!(calls.borrow().len(), 1);
    assert_eq!(arna.alloc_raw(layout(1, 1), LINUX, os), Ok(0x20_0000));
    assert_eq!(calls.borrow()[1], commit_call(0x10_0000, 2 * COMMIT_CHUNK));
    // A block beyond the next chunk is reached in whole pages.
    assert_eq!(arna.alloc_raw(layout(2 * COMMIT_CHUNK, 1), LINUX, os), Ok(0x20_0001));
    assert_eq!(calls.borrow()[2], commit_call(0x10_0000, 3 * COMMIT_CHUNK + PAGE_SIZE));
    // At the end there is no more than the arena.
    assert_eq!(arna.alloc_raw(layout(PAGE_SIZE, 1), LINUX, os), Ok(0x40_0001));
    assert_eq!(calls.borrow()[3], commit_call(0x10_0000, 64 * PAGE_SIZE));
    assert_eq!(calls.borrow().len(), 4);
}

#[test]
fn a_large_block_is_committed_to_its_end() {
    for size in [1, PAGE_SIZE, PAGE_SIZE + 1, 131072, COMMIT_CHUNK, 0x11_0001, 2097152] {
        let len = RefCell::new(0);
        let mut arna = over_virtual(0x10_0000, 2097152);
        let r = arna.alloc_raw(layout(size, 1), LINUX, |call: OsCall| {
            if let OsCall::Syscall { number: 10, a0: 0x10_0000, a1, a2: 3, .. } = call {
                *len.borrow_mut() = a1;
            }
            OsReply { value: 0, last_error: 0 }
        });
        assert_eq!(r, Ok(0x10_0000));
        assert!(*len.borrow() >= size && *len.borrow() % PAGE_SIZE == 0);
        assert!(*len.borrow() <= 2097152);
    }
}

#[test]
fn virtual_arena_runs_out() {
    let mut arna = over_virtual(0x10_0000, PAGE_SIZE);
    assert_eq!(arna.alloc_raw(layout(PAGE_SIZE, 1), LINUX, grant), Ok(0x10_0000));
    assert_eq!(arna.alloc_raw(layout(1, 1), LINUX, grant), Err(OOM));
    let mut arna = over_virtual(0x10_0000, PAGE_SIZE);
    assert_eq!(arna.alloc_raw(layout(1, 1), LINUX, refuse), Err(OOM));
}

#[test]
fn new_virtual_reports_a_refusal() {
    assert_eq!(Arna::new_virtual(0, LINUX, unexpected).unwrap_err().raw_os_error(), 22);
    assert_eq!(
        Arna::new_virtual(PAGE_SIZE, LINUX, |_: OsCall| OsReply {
            value: usize::MAX,
            last_error: 12
        })
        .unwrap_err()
        .raw_os_error(),
        12
    );
    let arna = Arna::over_reservation(Region { addr: 0x2_0000, len: PAGE_SIZE });
    assert_eq!(arna.backing_mode(), BackingMode::Mmap);
    assert_eq!(arna.memory(), Region { addr: 0x2_0000, len: PAGE_SIZE });
}

#[test]
fn uninit_room() {
    let mut arna = over_slice(0x1001, 64);
    let align = std::mem::align_of::<u32>();
    let first = 0x1001 + (align - 0x1001 % align) % align;
    assert_eq!(
        arna.alloc_uninit::<u32, _>(3, LINUX, unexpected),
        Ok(Slots { addr: first, len: 3 })
    );
    assert_eq!(
        arna.alloc_uninit::<u32, _>(0, LINUX, unexpected),
        Ok(Slots { addr: first + 12, len: 0 })
    );
    assert_eq!(
        arna.alloc_uninit::<(), _>(1000, LINUX, unexpected),
        Ok(Slots { addr: first + 12, len: 1000 })
    );
    assert_eq!(arna.alloc_uninit::<u32, _>(20, LINUX, grant), Err(OOM));
}

#[test]
fn copies_go_to_their_places() {
    let written = RefCell::new(Vec::new());
    let write = |addr: usize, value: u32| written.borrow_mut().push((addr, value));
    let mut arna = over_box(0x1000, 16);
    assert_eq!(
        arna.alloc_copy(&[7, 8, 9], LINUX, unexpected, write),
        Ok(Slots { addr: 0x1000, len: 3 })
    );
    assert_eq!(*written.borrow(), vec![(0x1000, 7), (0x1004, 8), (0x1008, 9)]);
    assert_eq!(arna.alloc_copy(&[1, 2], LINUX, grant, write), Err(OOM));
    assert_eq!(written.borrow().len(), 3);
}

#[test]
fn defaults_go_to_their_places() {
    let written = RefCell::new(Vec::new());
    let write = |addr: usize, value: u16| written.borrow_mut().push((addr, value));
    let mut arna = over_slice(0x1001, 16);
    assert_eq!(
        arna.alloc_default::<u16, _, _>(2, LINUX, unexpected, write),
        Ok(Slots { addr: 0x1002, len: 2 })
    );
    assert_eq!(*written.borrow(), vec![(0x1002, 0), (0x1004, 0)]);
    assert_eq!(arna.alloc_default::<u16, _, _>(20, LINUX, grant, write), Err(OOM));
    assert_eq!(written.borrow().len(), 2);
    Slots { addr: 0x2000, len: 1 }.fill_default(write);
    assert_eq!(written.borrow()[2], (0x2000, 0));
}

#[test]
fn clearing_takes_everything_back() {
    let mut arna = over_virtual(0x10_0000, 65536);
    assert_eq!(arna.alloc_raw(layout(16, 1), LINUX, grant), Ok(0x10_0000));
    let calls = RefCell::new(Vec::new());
    let cleared = arna.clear_and_decommit(LINUX, |call: OsCall| {
        calls.borrow_mut().push(call);
        OsReply { value: 0, last_error: 0 }
    });
    assert_eq!(cleared, Ok(()));
    let call = |number: usize, a2: usize| OsCall::Syscall {
        number,
        a0: 0x10_0000,
        a1: 65536,
        a2,
        a3: 0,
        a4: 0,
        a5: 0,
    };
    assert_eq!(*calls.borrow(), vec![call(10, 0), call(28, 4)]);
    // The memory has to be committed anew.
    assert_eq!(arna.begin_alloc(layout(16, 1)).1, Some(Region { addr: 0x10_0000, len: 65536 }));
    assert_eq!(arna.clear_and_decommit(LINUX, unexpected), Ok(()));
    assert_eq!(arna.alloc_raw(layout(16, 1), LINUX, grant), Ok(0x10_0000));
}

#[test]
fn clearing_without_committed_memory_asks_for_nothing() {
    let mut arna = over_virtual(0x10_0000, PAGE_SIZE);
    assert_eq!(arna.clear_and_decommit(LINUX, unexpected), Ok(()));
    assert_eq!(arna.alloc_raw(layout(8, 8), LINUX, refuse), Err(OOM));
    assert_eq!(arna.clear_and_decommit(LINUX, unexpected), Ok(()));
    assert_eq!(arna.end_of(layout(0, 1)), Some(0));
}

#[test]
fn a_refused_clearing_changes_nothing() {
    let mut arna = over_virtual(0x10_0000, PAGE_SIZE);
    assert_eq!(arna.alloc_raw(layout(8, 8), LINUX, grant), Ok(0x10_0000));
    assert_eq!(arna.clear_and_decommit(LINUX, refuse).unwrap_err().raw_os_error(), 22);
    assert_eq!(arna.end_of(layout(0, 1)), Some(8));
    assert_eq!(arna.alloc_raw(layout(8, 8), LINUX, unexpected), Ok(0x10_0008));
}

#[test]
fn each_backing_ends_in_its_way() {
    assert_eq!(over_slice(0x1000, 16).drop(LINUX, unexpected), Ok(None));
    assert_eq!(
        over_box(0x1000, 16).drop(LINUX, unexpected),
        Ok(Some(Region { addr: 0x1000, len: 16 }))
    );
    let calls = RefCell::new(Vec::new());
    let ended = over_virtual(0x10_0000, PAGE_SIZE).drop(LINUX, |call: OsCall| {
        calls.borrow_mut().push(call);
        OsReply { value: 0, last_error: 0 }
    });
    assert_eq!(ended, Ok(None));
    assert_eq!(
        *calls.borrow(),
        vec![OsCall::Syscall {
            number: 11,
            a0: 0x10_0000,
            a1: PAGE_SIZE,
            a2: 0,
            a3: 0,
            a4: 0,
            a5: 0
        }]
    );
    let stuck = over_virtual(0x10_0000, PAGE_SIZE).drop(LINUX, refuse);
    assert_eq!(stuck.unwrap_err().raw_os_error(), 22);
    assert_eq!(Arna::default().drop(LINUX, unexpected).unwrap_err().raw_os_error(), 22);
}

#[test]
fn an_exhausted_arena_hands_out_empty_blocks_only() {
    let mut arna = over_slice(0x1000, 32);
    assert_eq!(arna.alloc_raw(layout(33, 1), LINUX, unexpected), Err(OOM));
    assert_eq!(arna.alloc_raw(layout(1, 1), LINUX, unexpected), Err(OOM));
    assert_eq!(arna.alloc_raw(layout(0, 1), LINUX, unexpected), Ok(0x1020));
    assert_eq!(arna.memory(), Region { addr: 0x1000, len: 32 });
    assert_eq!(arna.backing_mode(), BackingMode::Slice);
}

/// What a virtual arena does to its memory, in order.
#[derive(Debug, PartialEq)]
enum Deed {
    Commit(usize),
    Write(usize, u32),
}

#[test]
fn values_are_written_after_the_commit() {
    let deeds = RefCell::new(Vec::new());
    let os = |call: OsCall| {
        match call {
            OsCall::Syscall { number: 10, a0: 0x10_0000, a1, a2: 3, .. } => {
                deeds.borrow_mut().push(Deed::Commit(a1))
            }
            _ => panic!("not a commit: {:?}", call),
        }
        OsReply { value: 0, last_error: 0 }
    };
    let write = |addr: usize, value: u32| deeds.borrow_mut().push(Deed::Write(addr, value));
    let mut arna = over_virtual(0x10_0000, 2 * COMMIT_CHUNK);
    assert_eq!(
        arna.alloc_copy(&[5, 6], LINUX, os, write),
        Ok(Slots { addr: 0x10_0000, len: 2 })
    );
    assert_eq!(
        arna.alloc_default::<u32, _, _>(1, LINUX, os, write),
        Ok(Slots { addr: 0x10_0008, len: 1 })
    );
    assert_eq!(
        *deeds.borrow(),
        vec![
            Deed::Commit(COMMIT_CHUNK),
            Deed::Write(0x10_0000, 5),
            Deed::Write(0x10_0004, 6),
            Deed::Write(0x10_0008, 0),
        ]
    );
    deeds.borrow_mut().clear();
    let mut arna = over_virtual(0x10_0000, PAGE_SIZE);
    assert_eq!(
        arna.alloc_default::<u32, _, _>(2, LINUX, os, write),
        Ok(Slots { addr: 0x10_0000, len: 2 })
    );
    assert_eq!(
        *deeds.borrow(),
        vec![Deed::Commit(PAGE_SIZE), Deed::Write(0x10_0000, 0), Deed::Write(0x10_0004, 0)]
    );
}

#[test]
fn nothing_is_written_after_a_refused_commit() {
    let write = |addr: usize, value: u32| panic!("{} must not be written to {}", value, addr);
    let mut arna = over_virtual(0x10_0000, PAGE_SIZE);
    assert_eq!(arna.alloc_copy(&[5, 6], LINUX, refuse, write), Err(OOM));
    assert_eq!(arna.alloc_default::<u32, _, _>(2, LINUX, refuse, write), Err(OOM));
}

#[test]
fn copies_follow_each_other() {
    let written = RefCell::new(Vec::new());
    let write = |addr: usize, value: u8| written.borrow_mut().push((addr, value));
    let mut arna = over_slice(0x1000, 5);
    assert_eq!(
        arna.alloc_copy(&[1u8, 2, 3], LINUX, unexpected, write),
        Ok(Slots { addr: 0x1000, len: 3 })
    );
    assert_eq!(
        arna.alloc_copy(&[4u8, 5], LINUX, unexpected, write),
        Ok(Slots { addr: 0x1003, len: 2 })
    );
    assert_eq!(arna.alloc_copy(&[6u8], LINUX, unexpected, write), Err(OOM));
    assert_eq!(
        *written.borrow(),
        vec![(0x1000, 1), (0x1001, 2), (0x1002, 3), (0x1003, 4), (0x1004, 5)]
    );
}
