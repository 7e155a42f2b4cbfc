//! Virtual memory on Windows.
use crate::sys::{OsCall, OsReply};
use crate::virtual_mem;
use crate::virtual_mem::Error;
use vstd::prelude::*;

verus! {

pub const MEM_COMMIT: u32 = 0x1000;

pub const MEM_RESERVE: u32 = 0x2000;

pub const MEM_DECOMMIT: u32 = 0x4000;

pub const MEM_RELEASE: u32 = 0x8000;

pub const PAGE_NOACCESS: u32 = 0x01;

pub const PAGE_READWRITE: u32 = 0x04;

pub const ERROR_INVALID_PARAMETER: i32 = 87;

/// `VirtualAlloc` of `size` inaccessible bytes, anywhere.
pub open spec fn reserve_call(size: usize) -> OsCall {
    OsCall::VirtualAlloc {
        address: 0,
        size,
        allocation_type: MEM_RESERVE,
        protect: PAGE_NOACCESS,
    }
}

pub open spec fn commit_call(ptr: usize, len: usize) -> OsCall {
    OsCall::VirtualAlloc {
        address: ptr,
        size: len,
        allocation_type: MEM_COMMIT,
        protect: PAGE_READWRITE,
    }
}

pub open spec fn decommit_call(ptr: usize, len: usize) -> OsCall {
    OsCall::VirtualFree { address: ptr, size: len, free_type: MEM_DECOMMIT }
}

/// Releasing names the whole reservation by its start alone.
pub open spec fn release_call(ptr: usize) -> OsCall {
    OsCall::VirtualFree { address: ptr, size: 0, free_type: MEM_RELEASE }
}

/// How a returned address reads: null is a failure.
pub open spec fn address_of(reply: OsReply) -> Result<usize, i32> {
    if reply.value == 0 {
        Err(reply.last_error)
    } else {
        Ok(reply.value)
    }
}

/// How a returned address or truth value reads where only success counts.
pub open spec fn status_of(reply: OsReply) -> Result<(), i32> {
    if reply.value == 0 {
        Err(reply.last_error)
    } else {
        Ok(())
    }
}

/// The error for an argument that cannot name a region.
pub fn invalid_parameter() -> (e: Error)
    ensures
        e@ == ERROR_INVALID_PARAMETER,
{
    Error::new(ERROR_INVALID_PARAMETER)
}

/// The error that a failed call left behind.
pub fn last_error(reply: OsReply) -> (e: Error)
    ensures
        e@ == reply.last_error,
{
    Error::new(reply.last_error)
}

/// Reserves `size` bytes of address space and returns where they start.
pub fn reserve<F: FnOnce(OsCall) -> OsReply>(size: usize, os: F) -> (r: Result<usize, Error>)
    requires
        call_requires(os, (reserve_call(size),)),
    ensures
        exists|reply: OsReply| #[trigger]
            call_ensures(os, (reserve_call(size),), reply) && virtual_mem::seen(r) == address_of(
                reply,
            ),
{
    let result = os(
        OsCall::VirtualAlloc {
            address: 0,
            size,
            allocation_type: MEM_RESERVE,
            protect: PAGE_NOACCESS,
        },
    );
    if result.value == 0 {
        Err(last_error(result))
    } else {
        Ok(result.value)
    }
}

/// Makes `len` bytes at `ptr` readable and writable.
pub fn commit<F: FnOnce(OsCall) -> OsReply>(ptr: usize, len: usize, os: F) -> (r: Result<(), Error>)
    requires
        call_requires(os, (commit_call(ptr, len),)),
    ensures
        exists|reply: OsReply| #[trigger]
            call_ensures(os, (commit_call(ptr, len),), reply) && virtual_mem::seen(r) == status_of(
                reply,
            ),
{
    let result = os(
        OsCall::VirtualAlloc {
            address: ptr,
            size: len,
            allocation_type: MEM_COMMIT,
            protect: PAGE_READWRITE,
        },
    );
    if result.value == 0 {
        Err(last_error(result))
    } else {
        Ok(())
    }
}

/// Lets the contents of `len` bytes at `ptr` go and makes them inaccessible.
pub fn decommit<F: FnOnce(OsCall) -> OsReply>(ptr: usize, len: usize, os: F) -> (r: Result<
    (),
    Error,
>)
    requires
        call_requires(os, (decommit_call(ptr, len),)),
    ensures
        exists|reply: OsReply| #[trigger]
            call_ensures(os, (decommit_call(ptr, len),), reply) && virtual_mem::seen(r)
                == status_of(reply),
{
    virtual_free(ptr, len, MEM_DECOMMIT, os)
}

/// Gives the reservation that starts at `ptr` back.
pub fn release<F: FnOnce(OsCall) -> OsReply>(ptr: usize, _len: usize, os: F) -> (r: Result<
    (),
    Error,
>)
    requires
        call_requires(os, (release_call(ptr),)),
    ensures
        exists|reply: OsReply| #[trigger]
            call_ensures(os, (release_call(ptr),), reply) && virtual_mem::seen(r) == status_of(
                reply,
            ),
{
    virtual_free(ptr, 0, MEM_RELEASE, os)
}

/// Calls `VirtualFree` and reads the truth value that it returns.
pub fn virtual_free<F: FnOnce(OsCall) -> OsReply>(
    ptr: usize,
    len: usize,
    free_type: u32,
    os: F,
) -> (r: Result<(), Error>)
    requires
        call_requires(os, (OsCall::VirtualFree { address: ptr, size: len, free_type },)),
    ensures
        exists|reply: OsReply| #[trigger]
            call_ensures(os, (OsCall::VirtualFree { address: ptr, size: len, free_type },), reply)
                && virtual_mem::seen(r) == status_of(reply),
{
    let result = os(OsCall::VirtualFree { address: ptr, size: len, free_type });
    if result.value == 0 {
        Err(last_error(result))
    } else {
        Ok(())
    }
}

} // verus!
