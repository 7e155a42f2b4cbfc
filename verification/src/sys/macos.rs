//! Virtual memory on macOS.
use crate::sys::{OsCall, OsReply};
use crate::virtual_mem;
use crate::virtual_mem::Error;
use vstd::prelude::*;

verus! {

pub const PROT_NONE: i32 = 0;

/// Readable and writable.
pub const PROT_READ_WRITE: i32 = 3;

/// Private and backed by no file.
pub const MAP_PRIVATE_ANONYMOUS: i32 = 0x1002;

/// The descriptor that names no file.
pub const NO_FILE: i32 = -1;

pub const MADV_DONTNEED: i32 = 4;

/// `EINVAL`.
pub const EINVAL: i32 = 22;

/// `mmap` of `size` inaccessible private anonymous bytes, anywhere.
pub open spec fn reserve_call(size: usize) -> OsCall {
    OsCall::Mmap {
        address: 0,
        len: size,
        protection: PROT_NONE,
        flags: MAP_PRIVATE_ANONYMOUS,
        fd: NO_FILE,
        offset: 0,
    }
}

pub open spec fn commit_call(ptr: usize, len: usize) -> OsCall {
    OsCall::Mprotect { address: ptr, len, protection: PROT_READ_WRITE }
}

pub open spec fn decommit_call(ptr: usize, len: usize) -> OsCall {
    OsCall::Mprotect { address: ptr, len, protection: PROT_NONE }
}

pub open spec fn discard_call(ptr: usize, len: usize) -> OsCall {
    OsCall::Madvise { address: ptr, len, advice: MADV_DONTNEED }
}

pub open spec fn release_call(ptr: usize, len: usize) -> OsCall {
    OsCall::Munmap { address: ptr, len }
}

/// How a returned address reads: minus one is a failure.
pub open spec fn address_of(reply: OsReply) -> Result<usize, i32> {
    if reply.value == usize::MAX {
        Err(reply.last_error)
    } else {
        Ok(reply.value)
    }
}

/// How a returned status reads: minus one is a failure, the rest success.
pub open spec fn status_of(reply: OsReply) -> Result<(), i32> {
    if reply.value == usize::MAX {
        Err(reply.last_error)
    } else {
        Ok(())
    }
}

/// The error for an argument that cannot name a region.
pub fn invalid_parameter() -> (e: Error)
    ensures
        e@ == EINVAL,
{
    Error::new(EINVAL)
}

/// The error that a failed call left behind.
pub fn last_error(reply: OsReply) -> (e: Error)
    ensures
        e@ == reply.last_error,
{
    Error::new(reply.last_error)
}

/// Reads the status that a call returned.
pub fn result(reply: OsReply) -> (r: Result<(), Error>)
    ensures
        virtual_mem::seen(r) == status_of(reply),
{
    if reply.value == usize::MAX {
        Err(last_error(reply))
    } else {
        Ok(())
    }
}

/// Reserves `size` bytes of address space and returns where they start.
pub fn reserve<F: FnOnce(OsCall) -> OsReply>(size: usize, os: F) -> (r: Result<usize, Error>)
    requires
        call_requires(os, (reserve_call(size),)),
    ensures
        exists|reply: OsReply| #[trigger]
            call_ensures(os, (reserve_call(size),), reply) && virtual_mem::seen(r) == address_of(
                reply,
            ),
{
    let reply = os(
        OsCall::Mmap {
            address: 0,
            len: size,
            protection: PROT_NONE,
            flags: MAP_PRIVATE_ANONYMOUS,
            fd: NO_FILE,
            offset: 0,
        },
    );
    if reply.value == usize::MAX {
        Err(last_error(reply))
    } else {
        Ok(reply.value)
    }
}

/// Makes `len` bytes at `ptr` readable and writable.
pub fn commit<F: FnOnce(OsCall) -> OsReply>(ptr: usize, len: usize, os: F) -> (r: Result<(), Error>)
    requires
        call_requires(os, (commit_call(ptr, len),)),
    ensures
        exists|reply: OsReply| #[trigger]
            call_ensures(os, (commit_call(ptr, len),), reply) && virtual_mem::seen(r) == status_of(
                reply,
            ),
{
    let reply = os(OsCall::Mprotect { address: ptr, len, protection: PROT_READ_WRITE });
    result(reply)
}

/// Makes `len` bytes at `ptr` inaccessible, then lets their contents go.
pub fn decommit<F: Fn(OsCall) -> OsReply>(ptr: usize, len: usize, os: F) -> (r: Result<(), Error>)
    requires
        call_requires(os, (decommit_call(ptr, len),)),
        forall|first: OsReply| #[trigger]
            call_ensures(os, (decommit_call(ptr, len),), first) && status_of(first) is Ok
                ==> call_requires(os, (discard_call(ptr, len),)),
    ensures
        exists|first: OsReply| #[trigger]
            call_ensures(os, (decommit_call(ptr, len),), first) && match status_of(first) {
                Err(code) => virtual_mem::seen(r) == Err::<(), i32>(code),
                Ok(()) => exists|second: OsReply| #[trigger]
                    call_ensures(os, (discard_call(ptr, len),), second) && virtual_mem::seen(r)
                        == status_of(second),
            },
{
    let first = os(OsCall::Mprotect { address: ptr, len, protection: PROT_NONE });
    match result(first) {
        Err(error) => Err(error),
        Ok(()) => {
            let second = os(OsCall::Madvise { address: ptr, len, advice: MADV_DONTNEED });
            result(second)
        },
    }
}

/// Gives `len` bytes at `ptr` back.
pub fn release<F: FnOnce(OsCall) -> OsReply>(ptr: usize, len: usize, os: F) -> (r: Result<
    (),
    Error,
>)
    requires
        call_requires(os, (release_call(ptr, len),)),
    ensures
        exists|reply: OsReply| #[trigger]
            call_ensures(os, (release_call(ptr, len),), reply) && virtual_mem::seen(r)
                == status_of(reply),
{
    let reply = os(OsCall::Munmap { address: ptr, len });
    result(reply)
}

} // verus!
