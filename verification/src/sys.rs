//! The calls the virtual-memory layer makes to the operating system, as data.
use vstd::prelude::*;

pub mod linux;
pub mod macos;
pub mod windows;

verus! {

/// The processor families whose Linux system-call numbers are known.
#[derive(Clone, Copy, Debug, PartialEq, Eq, Structural)]
pub enum Arch {
    X86_64,
    Aarch64,
    Riscv64,
    X86,
    Arm,
}

/// The platform that a program runs on.
#[derive(Clone, Copy, Debug, PartialEq, Eq, Structural)]
pub enum Target {
    Linux(Arch),
    Windows,
    MacOs,
}

/// One call to the operating system with all of its arguments.
///
/// A `Syscall` that takes fewer than six arguments has zeroes in the rest.
#[derive(Clone, Copy, Debug, PartialEq, Eq, Structural)]
pub enum OsCall {
    Syscall { number: usize, a0: usize, a1: usize, a2: usize, a3: usize, a4: usize, a5: usize },
    VirtualAlloc { address: usize, size: usize, allocation_type: u32, protect: u32 },
    VirtualFree { address: usize, size: usize, free_type: u32 },
    Mmap { address: usize, len: usize, protection: i32, flags: i32, fd: i32, offset: i64 },
    Mprotect { address: usize, len: usize, protection: i32 },
    Madvise { address: usize, len: usize, advice: i32 },
    Munmap { address: usize, len: usize },
}

/// What came back from an [`OsCall`]: the returned word, sign-extended to the
/// width of an address, and the error code that the thread held afterwards.
#[derive(Clone, Copy, Debug, PartialEq, Eq, Structural)]
pub struct OsReply {
    pub value: usize,
    pub last_error: i32,
}

} // verus!
