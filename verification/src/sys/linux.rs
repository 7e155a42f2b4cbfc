//! Virtual memory on Linux, by system-call number.
use crate::sys::{Arch, OsCall, OsReply};
use crate::virtual_mem;
use crate::virtual_mem::Error;
use vstd::prelude::*;

verus! {

pub const PROT_NONE: usize = 0;

/// Readable and writable.
pub const PROT_READ_WRITE: usize = 3;

/// Private and backed by no file.
pub const MAP_PRIVATE_ANONYMOUS: usize = 0x22;

pub const MADV_DONTNEED: usize = 4;

/// `EINVAL`.
pub const EINVAL: i32 = 22;

/// The numbers of the four memory system calls on one processor family.
#[derive(Clone, Copy, Debug, PartialEq, Eq, Structural)]
pub struct Numbers {
    pub mmap: usize,
    pub mprotect: usize,
    pub munmap: usize,
    pub madvise: usize,
}

pub open spec fn numbers_of(arch: Arch) -> Numbers {
    match arch {
        Arch::X86_64 => Numbers { mmap: 9, mprotect: 10, munmap: 11, madvise: 28 },
        Arch::Aarch64 | Arch::Riscv64 => Numbers {
            mmap: 222,
            mprotect: 226,
            munmap: 215,
            madvise: 233,
        },
        Arch::X86 => Numbers { mmap: 192, mprotect: 125, munmap: 91, madvise: 219 },
        Arch::Arm => Numbers { mmap: 192, mprotect: 125, munmap: 91, madvise: 220 },
    }
}

/// The system-call numbers of `arch`. On 32-bit families `mmap` is `mmap2`,
/// which is the same call when the offset is zero.
pub fn numbers(arch: Arch) -> (r: Numbers)
    ensures
        r == numbers_of(arch),
{
    match arch {
        Arch::X86_64 => Numbers { mmap: 9, mprotect: 10, munmap: 11, madvise: 28 },
        Arch::Aarch64 | Arch::Riscv64 => Numbers {
            mmap: 222,
            mprotect: 226,
            munmap: 215,
            madvise: 233,
        },
        Arch::X86 => Numbers { mmap: 192, mprotect: 125, munmap: 91, madvise: 219 },
        Arch::Arm => Numbers { mmap: 192, mprotect: 125, munmap: 91, madvise: 220 },
    }
}

pub open spec fn call3(number: usize, a0: usize, a1: usize, a2: usize) -> OsCall {
    OsCall::Syscall { number, a0, a1, a2, a3: 0, a4: 0, a5: 0 }
}

/// A system call with three arguments.
fn syscall3(number: usize, a0: usize, a1: usize, a2: usize) -> (call: OsCall)
    ensures
        call == call3(number, a0, a1, a2),
{
    OsCall::Syscall { number, a0, a1, a2, a3: 0, a4: 0, a5: 0 }
}

/// `mmap` of `size` inaccessible private anonymous bytes, anywhere.
pub open spec fn reserve_call(arch: Arch, size: usize) -> OsCall {
    OsCall::Syscall {
        number: numbers_of(arch).mmap,
        a0: 0,
        a1: size,
        a2: PROT_NONE,
        a3: MAP_PRIVATE_ANONYMOUS,
        a4: usize::MAX,
        a5: 0,
    }
}

pub open spec fn commit_call(arch: Arch, ptr: usize, len: usize) -> OsCall {
    call3(numbers_of(arch).mprotect, ptr, len, PROT_READ_WRITE)
}

pub open spec fn decommit_call(arch: Arch, ptr: usize, len: usize) -> OsCall {
    call3(numbers_of(arch).mprotect, ptr, len, PROT_NONE)
}

pub open spec fn discard_call(arch: Arch, ptr: usize, len: usize) -> OsCall {
    call3(numbers_of(arch).madvise, ptr, len, MADV_DONTNEED)
}

pub open spec fn release_call(arch: Arch, ptr: usize, len: usize) -> OsCall {
    call3(numbers_of(arch).munmap, ptr, len, 0)
}

/// How a returned address reads: minus one is a failure.
pub open spec fn address_of(reply: OsReply) -> Result<usize, i32> {
    if reply.value == usize::MAX {
        Err(reply.last_error)
    } else {
        Ok(reply.value)
    }
}

/// How a returned status reads: minus one is a failure, the rest success.
pub open spec fn status_of(reply: OsReply) -> Result<(), i32> {
    if reply.value == usize::MAX {
        Err(reply.last_error)
    } else {
        Ok(())
    }
}

/// The error for an argument that cannot name a region.
pub fn invalid_parameter() -> (e: Error)
    ensures
        e@ == EINVAL,
{
    Error::new(EINVAL)
}

/// The error that a failed call left behind.
pub fn last_error(reply: OsReply) -> (e: Error)
    ensures
        e@ == reply.last_error,
{
    Error::new(reply.last_error)
}

/// Reads the status that a system call returned.
pub fn syscall_result(reply: OsReply) -> (r: Result<(), Error>)
    ensures
        virtual_mem::seen(r) == status_of(reply),
{
    if reply.value == usize::MAX {
        Err(last_error(reply))
    } else {
        Ok(())
    }
}

/// Reserves `size` bytes of address space and returns where they start.
pub fn reserve<F: FnOnce(OsCall) -> OsReply>(arch: Arch, size: usize, os: F) -> (r: Result<
    usize,
    Error,
>)
    requires
        call_requires(os, (reserve_call(arch, size),)),
    ensures
        exists|reply: OsReply| #[trigger]
            call_ensures(os, (reserve_call(arch, size),), reply) && virtual_mem::seen(r)
                == address_of(reply),
{
    let result = os(
        OsCall::Syscall {
            number: numbers(arch).mmap,
            a0: 0,
            a1: size,
            a2: PROT_NONE,
            a3: MAP_PRIVATE_ANONYMOUS,
            a4: usize::MAX,
            a5: 0,
        },
    );
    if result.value == usize::MAX {
        Err(last_error(result))
    } else {
        Ok(result.value)
    }
}

/// Makes `len` bytes at `ptr` readable and writable.
pub fn commit<F: FnOnce(OsCall) -> OsReply>(arch: Arch, ptr: usize, len: usize, os: F) -> (r:
    Result<(), Error>)
    requires
        call_requires(os, (commit_call(arch, ptr, len),)),
    ensures
        exists|reply: OsReply| #[trigger]
            call_ensures(os, (commit_call(arch, ptr, len),), reply) && virtual_mem::seen(r)
                == status_of(reply),
{
    let result = os(syscall3(numbers(arch).mprotect, ptr, len, PROT_READ_WRITE));
    syscall_result(result)
}

/// Makes `len` bytes at `ptr` inaccessible, then lets their contents go.
pub fn decommit<F: Fn(OsCall) -> OsReply>(arch: Arch, ptr: usize, len: usize, os: F) -> (r: Result<
    (),
    Error,
>)
    requires
        call_requires(os, (decommit_call(arch, ptr, len),)),
        forall|first: OsReply| #[trigger]
            call_ensures(os, (decommit_call(arch, ptr, len),), first) && status_of(first) is Ok
                ==> call_requires(os, (discard_call(arch, ptr, len),)),
    ensures
        exists|first: OsReply| #[trigger]
            call_ensures(os, (decommit_call(arch, ptr, len),), first) && match status_of(first) {
                Err(code) => virtual_mem::seen(r) == Err::<(), i32>(code),
                Ok(()) => exists|second: OsReply| #[trigger]
                    call_ensures(os, (discard_call(arch, ptr, len),), second) && virtual_mem::seen(
                        r,
                    ) == status_of(second),
            },
{
    let first = os(syscall3(numbers(arch).mprotect, ptr, len, PROT_NONE));
    match syscall_result(first) {
        Err(error) => Err(error),
        Ok(()) => {
            let second = os(syscall3(numbers(arch).madvise, ptr, len, MADV_DONTNEED));
            syscall_result(second)
        },
    }
}

/// Gives `len` bytes at `ptr` back.
pub fn release<F: FnOnce(OsCall) -> OsReply>(arch: Arch, ptr: usize, len: usize, os: F) -> (r:
    Result<(), Error>)
    requires
        call_requires(os, (release_call(arch, ptr, len),)),
    ensures
        exists|reply: OsReply| #[trigger]
            call_ensures(os, (release_call(arch, ptr, len),), reply) && virtual_mem::seen(r)
                == status_of(reply),
{
    let result = os(syscall3(numbers(arch).munmap, ptr, len, 0));
    syscall_result(result)
}

} // verus!
