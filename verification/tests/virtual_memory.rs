use arna::sys::{linux, macos, windows, Arch, OsCall, OsReply, Target};
use arna::virtual_mem::{commit, decommit, region_parts, release, reserve, Region};
use std::cell::{Cell, RefCell};

const LINUX: Target = Target::Linux(Arch::X86_64);

/// One reservation of a small Linux machine.
struct Machine {
    base: usize,
    reserved: Cell<usize>,
    accessible: Cell<bool>,
    bytes: RefCell<Vec<u8>>,
}

impl Machine {
    fn new(base: usize) -> Machine {
        Machine {
            base,
            reserved: Cell::new(0),
            accessible: Cell::new(false),
            bytes: RefCell::new(Vec::new()),
        }
    }

    fn perform(&self, call: OsCall) -> OsReply {
        let done = OsReply { value: 0, last_error: 0 };
        match call {
            OsCall::Syscall { number: 9, a0, a1, a2, a3, a4, a5 } => {
                assert_eq!((a0, a2, a3, a4, a5), (0, 0, 0x22, usize::MAX, 0));
                self.reserved.set(a1);
                *self.bytes.borrow_mut() = vec![0; a1];
                OsReply { value: self.base, last_error: 0 }
            }
            OsCall::Syscall { number, a0, a1, a2, .. } => {
                assert_eq!((a0, a1), (self.base, self.reserved.get()));
                match (number, a2) {
                    (10, 3) => self.accessible.set(true),
                    (10, 0) => self.accessible.set(false),
                    (28, 4) => self.bytes.borrow_mut().fill(0),
                    (11, 0) => {
                        self.reserved.set(0);
                        self.accessible.set(false);
                    }
                    _ => return OsReply { value: usize::MAX, last_error: 38 },
                }
                done
            }
            _ => OsReply { value: usize::MAX, last_error: 38 },
        }
    }

    fn write(&self, addr: usize, value: u8) {
        assert!(self.accessible.get());
        self.bytes.borrow_mut()[addr - self.base] = value;
    }

    fn read(&self, addr: usize) -> u8 {
        assert!(self.accessible.get());
        self.bytes.borrow()[addr - self.base]
    }
}

#[test]
fn virtual_memory_lifecycle() {
    let machine = Machine::new(0x7f00_0000);
    let os = |call: OsCall| machine.perform(call);
    let region = reserve(8192, LINUX, os).unwrap();
    commit(region, LINUX, os).unwrap();

    let ptr = region.addr;
    machine.write(ptr, 42);
    machine.write(ptr + 8191, 24);
    assert_eq!(machine.read(ptr), 42);
    assert_eq!(machine.read(ptr + 8191), 24);

    decommit(region, LINUX, os).unwrap();
    assert!(!machine.accessible.get());
    commit(region, LINUX, os).unwrap();
    assert_eq!(machine.read(ptr), 0);
    machine.write(ptr, 7);
    assert_eq!(machine.read(ptr), 7);

    release(region, LINUX, os).unwrap();
    assert_eq!(machine.reserved.get(), 0);
}

fn unexpected(call: OsCall) -> OsReply {
    panic!("no call was expected: {:?}", call)
}

#[test]
fn rejects_empty_reservations() {
    assert!(reserve(0, LINUX, unexpected).is_err());
    assert_eq!(reserve(0, LINUX, unexpected).unwrap_err().raw_os_error(), 22);
    assert_eq!(reserve(0, Target::MacOs, unexpected).unwrap_err().raw_os_error(), 22);
    assert_eq!(reserve(0, Target::Windows, unexpected).unwrap_err().raw_os_error(), 87);
}

#[test]
fn rejects_regions_that_name_no_memory() {
    for region in [Region { addr: 0, len: 16 }, Region { addr: 16, len: 0 }] {
        assert_eq!(region_parts(region, LINUX).unwrap_err().raw_os_error(), 22);
        assert_eq!(commit(region, LINUX, unexpected).unwrap_err().raw_os_error(), 22);
        assert_eq!(decommit(region, Target::MacOs, unexpected).unwrap_err().raw_os_error(), 22);
        assert_eq!(release(region, Target::Windows, unexpected).unwrap_err().raw_os_error(), 87);
    }
    assert_eq!(region_parts(Region { addr: 3, len: 4 }, LINUX), Ok((3, 4)));
}

#[test]
fn reports_the_code_of_a_failed_call() {
    let refuse = |_: OsCall| OsReply { value: usize::MAX, last_error: 12 };
    let region = Region { addr: 0x1000, len: 0x2000 };
    assert_eq!(reserve(64, LINUX, refuse).unwrap_err().raw_os_error(), 12);
    assert_eq!(commit(region, Target::MacOs, refuse).unwrap_err().raw_os_error(), 12);
    assert_eq!(decommit(region, LINUX, refuse).unwrap_err().raw_os_error(), 12);
    assert_eq!(release(region, Target::MacOs, refuse).unwrap_err().raw_os_error(), 12);
    let null = |_: OsCall| OsReply { value: 0, last_error: 8 };
    assert_eq!(reserve(64, Target::Windows, null).unwrap_err().raw_os_error(), 8);
    assert_eq!(commit(region, Target::Windows, null).unwrap_err().raw_os_error(), 8);
    assert_eq!(decommit(region, Target::Windows, null).unwrap_err().raw_os_error(), 8);
    assert_eq!(release(region, Target::Windows, null).unwrap_err().raw_os_error(), 8);
}

#[test]
fn a_failed_discard_fails_the_decommit() {
    let calls = RefCell::new(Vec::new());
    let os = |call: OsCall| {
        calls.borrow_mut().push(call);
        match call {
            OsCall::Madvise { .. } => OsReply { value: usize::MAX, last_error: 5 },
            _ => OsReply { value: 0, last_error: 0 },
        }
    };
    let region = Region { addr: 0x4000, len: 0x1000 };
    assert_eq!(decommit(region, Target::MacOs, os).unwrap_err().raw_os_error(), 5);
    assert_eq!(
        *calls.borrow(),
        vec![
            OsCall::Mprotect { address: 0x4000, len: 0x1000, protection: 0 },
            OsCall::Madvise { address: 0x4000, len: 0x1000, advice: 4 },
        ]
    );
}

/// The one call that `f` makes.
fn recorded(value: usize, f: impl FnOnce(&dyn Fn(OsCall) -> OsReply)) -> OsCall {
    let calls = RefCell::new(Vec::new());
    f(&|call: OsCall| {
        calls.borrow_mut().push(call);
        OsReply { value, last_error: 0 }
    });
    assert_eq!(calls.borrow().len(), 1);
    let call = calls.borrow()[0];
    call
}

#[test]
fn windows_calls() {
    let region = Region { addr: 0x4000, len: 0x1000 };
    let target = Target::Windows;
    assert_eq!(
        recorded(0x9000, |os| assert_eq!(
            reserve(64, target, os),
            Ok(Region { addr: 0x9000, len: 64 })
        )),
        OsCall::VirtualAlloc { address: 0, size: 64, allocation_type: 0x2000, protect: 0x01 }
    );
    assert_eq!(
        recorded(0x4000, |os| commit(region, target, os).unwrap()),
        OsCall::VirtualAlloc {
            address: 0x4000,
            size: 0x1000,
            allocation_type: 0x1000,
            protect: 0x04
        }
    );
    assert_eq!(
        recorded(1, |os| decommit(region, target, os).unwrap()),
        OsCall::VirtualFree { address: 0x4000, size: 0x1000, free_type: 0x4000 }
    );
    assert_eq!(
        recorded(1, |os| release(region, target, os).unwrap()),
        OsCall::VirtualFree { address: 0x4000, size: 0, free_type: 0x8000 }
    );
    assert_eq!(windows::invalid_parameter().raw_os_error(), 87);
}

#[test]
fn macos_calls() {
    let region = Region { addr: 0x4000, len: 0x1000 };
    let target = Target::MacOs;
    assert_eq!(
        recorded(0x9000, |os| assert_eq!(
            reserve(64, target, os),
            Ok(Region { addr: 0x9000, len: 64 })
        )),
        OsCall::Mmap { address: 0, len: 64, protection: 0, flags: 0x1002, fd: -1, offset: 0 }
    );
    assert_eq!(
        recorded(0, |os| commit(region, target, os).unwrap()),
        OsCall::Mprotect { address: 0x4000, len: 0x1000, protection: 3 }
    );
    assert_eq!(
        recorded(0, |os| release(region, target, os).unwrap()),
        OsCall::Munmap { address: 0x4000, len: 0x1000 }
    );
    assert_eq!(macos::invalid_parameter().raw_os_error(), 22);
}

#[test]
fn linux_numbers() {
    let rows = [
        (Arch::X86_64, [9, 10, 11, 28]),
        (Arch::Aarch64, [222, 226, 215, 233]),
        (Arch::Riscv64, [222, 226, 215, 233]),
        (Arch::X86, [192, 125, 91, 219]),
        (Arch::Arm, [192, 125, 91, 220]),
    ];
    for (arch, expected) in rows {
        let n = linux::numbers(arch);
        assert_eq!([n.mmap, n.mprotect, n.munmap, n.madvise], expected);
    }
    assert_eq!(linux::invalid_parameter().raw_os_error(), 22);
    assert_eq!(
        linux::syscall_result(OsReply { value: usize::MAX, last_error: 9 })
            .unwrap_err()
            .raw_os_error(),
        9
    );
    assert!(linux::syscall_result(OsReply { value: 0, last_error: 9 }).is_ok());
}

#[test]
fn a_reservation_at_null_names_no_memory() {
    let null = |_: OsCall| OsReply { value: 0, last_error: 0 };
    let region = reserve(64, LINUX, null).unwrap();
    assert_eq!(region, Region { addr: 0, len: 64 });
    assert_eq!(commit(region, LINUX, unexpected).unwrap_err().raw_os_error(), 22);
    assert!(reserve(64, Target::Windows, null).is_err());
}

#[test]
fn a_refused_decommit_discards_nothing() {
    let region = Region { addr: 0x4000, len: 0x1000 };
    for target in [LINUX, Target::MacOs, Target::Windows] {
        let calls = RefCell::new(0);
        let os = |_: OsCall| {
            *calls.borrow_mut() += 1;
            let value = if target == Target::Windows { 0 } else { usize::MAX };
            OsReply { value, last_error: 13 }
        };
        assert_eq!(decommit(region, target, os).unwrap_err().raw_os_error(), 13);
        assert_eq!(*calls.borrow(), 1);
    }
}
