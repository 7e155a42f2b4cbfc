//! Reserving, committing, decommitting and releasing address space.
//!
//! Each function takes the platform and a function that performs the calls;
//! what it returns is fixed by what that function answers.
use crate::sys::linux;
use crate::sys::macos;
use crate::sys::windows;
use crate::sys::{OsCall, OsReply, Target};
use vstd::prelude::*;

verus! {

/// A failure of the operating system, by its code.
#[derive(Clone, Copy, Debug, PartialEq, Eq, Structural)]
pub struct Error(i32);

impl View for Error {
    type V = i32;

    closed spec fn view(&self) -> i32 {
        self.0
    }
}

impl Error {
    pub(crate) fn new(code: i32) -> (e: Error)
        ensures
            e@ == code,
    {
        Error(code)
    }

    /// The code that the operating system gave.
    pub fn raw_os_error(self) -> (code: i32)
        ensures
            code == self@,
    {
        self.0
    }
}

/// A stretch of address space: `len` bytes from `addr` on.
#[derive(Clone, Copy, Debug, PartialEq, Eq, Structural)]
pub struct Region {
    pub addr: usize,
    pub len: usize,
}

impl Region {
    /// Whether the region names memory at all: it is neither null nor empty.
    pub open spec fn names_memory(self) -> bool {
        self.addr != 0 && self.len != 0
    }
}

/// A result with its error seen as the operating system's code.
pub open spec fn seen<T>(r: Result<T, Error>) -> Result<T, i32> {
    match r {
        Ok(t) => Ok(t),
        Err(e) => Err(e@),
    }
}

/// The code of the error for an argument that cannot name a region.
pub open spec fn invalid_parameter_code(target: Target) -> i32 {
    match target {
        Target::Linux(_) => linux::EINVAL,
        Target::Windows => windows::ERROR_INVALID_PARAMETER,
        Target::MacOs => macos::EINVAL,
    }
}

/// The call that reserves `size` bytes.
pub open spec fn reserve_call(target: Target, size: usize) -> OsCall {
    match target {
        Target::Linux(arch) => linux::reserve_call(arch, size),
        Target::Windows => windows::reserve_call(size),
        Target::MacOs => macos::reserve_call(size),
    }
}

/// The call that makes `region` readable and writable.
pub open spec fn commit_call(target: Target, region: Region) -> OsCall {
    match target {
        Target::Linux(arch) => linux::commit_call(arch, region.addr, region.len),
        Target::Windows => windows::commit_call(region.addr, region.len),
        Target::MacOs => macos::commit_call(region.addr, region.len),
    }
}

/// The call that makes `region` inaccessible.
pub open spec fn decommit_call(target: Target, region: Region) -> OsCall {
    match target {
        Target::Linux(arch) => linux::decommit_call(arch, region.addr, region.len),
        Target::Windows => windows::decommit_call(region.addr, region.len),
        Target::MacOs => macos::decommit_call(region.addr, region.len),
    }
}

/// The call that lets the contents of `region` go, where making it
/// inaccessible does not do so already.
pub open spec fn discard_call(target: Target, region: Region) -> Option<OsCall> {
    match target {
        Target::Linux(arch) => Some(linux::discard_call(arch, region.addr, region.len)),
        Target::Windows => None,
        Target::MacOs => Some(macos::discard_call(region.addr, region.len)),
    }
}

/// The call that gives `region` back.
pub open spec fn release_call(target: Target, region: Region) -> OsCall {
    match target {
        Target::Linux(arch) => linux::release_call(arch, region.addr, region.len),
        Target::Windows => windows::release_call(region.addr),
        Target::MacOs => macos::release_call(region.addr, region.len),
    }
}

/// How the reply to a reservation of `size` bytes reads.
pub open spec fn reservation_of(target: Target, size: usize, reply: OsReply) -> Result<
    Region,
    i32,
> {
    let address = match target {
        Target::Linux(_) => linux::address_of(reply),
        Target::Windows => windows::address_of(reply),
        Target::MacOs => macos::address_of(reply),
    };
    match address {
        Ok(addr) => Ok(Region { addr, len: size }),
        Err(code) => Err(code),
    }
}

/// How the reply to any other call reads.
pub open spec fn status_of(target: Target, reply: OsReply) -> Result<(), i32> {
    match target {
        Target::Linux(_) => linux::status_of(reply),
        Target::Windows => windows::status_of(reply),
        Target::MacOs => macos::status_of(reply),
    }
}

/// `out` is what a reservation of `size` bytes comes to when `os` performs the
/// call.
pub open spec fn reserve_answer<F: FnOnce(OsCall) -> OsReply>(
    target: Target,
    size: usize,
    os: F,
    out: Result<Region, i32>,
) -> bool {
    if size == 0 {
        out == Err::<Region, i32>(invalid_parameter_code(target))
    } else {
        exists|reply: OsReply| #[trigger]
            call_ensures(os, (reserve_call(target, size),), reply) && out == reservation_of(
                target,
                size,
                reply,
            )
    }
}

/// `out` is what committing `region` comes to when `os` performs the call.
pub open spec fn commit_answer<F: FnOnce(OsCall) -> OsReply>(
    target: Target,
    region: Region,
    os: F,
    out: Result<(), i32>,
) -> bool {
    if !region.names_memory() {
        out == Err::<(), i32>(invalid_parameter_code(target))
    } else {
        exists|reply: OsReply| #[trigger]
            call_ensures(os, (commit_call(target, region),), reply) && out == status_of(
                target,
                reply,
            )
    }
}

/// `out` is what decommitting `region` comes to when `os` performs the calls:
/// the first failure, if there is one.
pub open spec fn decommit_answer<F: FnOnce(OsCall) -> OsReply>(
    target: Target,
    region: Region,
    os: F,
    out: Result<(), i32>,
) -> bool {
    if !region.names_memory() {
        out == Err::<(), i32>(invalid_parameter_code(target))
    } else {
        exists|first: OsReply| #[trigger]
            call_ensures(os, (decommit_call(target, region),), first) && match (
                status_of(target, first),
                discard_call(target, region),
            ) {
                (Ok(()), Some(discard)) => exists|second: OsReply| #[trigger]
                    call_ensures(os, (discard,), second) && out == status_of(target, second),
                (status, _) => out == status,
            }
    }
}

/// `os` can perform the calls that decommit `region`: the first one, and once that
/// has succeeded the one that lets the contents go, where there is one.
pub open spec fn can_decommit<F: FnOnce(OsCall) -> OsReply>(
    target: Target,
    region: Region,
    os: F,
) -> bool {
    region.names_memory() ==> {
        &&& call_requires(os, (decommit_call(target, region),))
        &&& discard_call(target, region) matches Some(discard) ==> forall|first: OsReply|
            #[trigger] call_ensures(os, (decommit_call(target, region),), first) && status_of(
                target,
                first,
            ) is Ok ==> call_requires(os, (discard,))
    }
}

/// `out` is what releasing `region` comes to when `os` performs the call.
pub open spec fn release_answer<F: FnOnce(OsCall) -> OsReply>(
    target: Target,
    region: Region,
    os: F,
    out: Result<(), i32>,
) -> bool {
    if !region.names_memory() {
        out == Err::<(), i32>(invalid_parameter_code(target))
    } else {
        exists|reply: OsReply| #[trigger]
            call_ensures(os, (release_call(target, region),), reply) && out == status_of(
                target,
                reply,
            )
    }
}

/// The error for an argument that cannot name a region.
pub fn invalid_parameter(target: Target) -> (e: Error)
    ensures
        e@ == invalid_parameter_code(target),
{
    match target {
        Target::Linux(_) => linux::invalid_parameter(),
        Target::Windows => windows::invalid_parameter(),
        Target::MacOs => macos::invalid_parameter(),
    }
}

/// Reserves `size` bytes of address space. They stay inaccessible until they
/// are committed. An empty reservation is refused without a call.
pub fn reserve<F: FnOnce(OsCall) -> OsReply>(size: usize, target: Target, os: F) -> (r: Result<
    Region,
    Error,
>)
    requires
        size != 0 ==> call_requires(os, (reserve_call(target, size),)),
    ensures
        reserve_answer(target, size, os, seen(r)),
{
    if size == 0 {
        return Err(invalid_parameter(target));
    }
    let address = match target {
        Target::Linux(arch) => linux::reserve(arch, size, os),
        Target::Windows => windows::reserve(size, os),
        Target::MacOs => macos::reserve(size, os),
    };
    match address {
        Ok(addr) => Ok(Region { addr, len: size }),
        Err(error) => Err(error),
    }
}

/// Makes a reserved region readable and writable.
///
/// `region` is a currently reserved region returned by [`reserve`], or the
/// start of one.
pub fn commit<F: FnOnce(OsCall) -> OsReply>(region: Region, target: Target, os: F) -> (r: Result<
    (),
    Error,
>)
    requires
        region.names_memory() ==> call_requires(os, (commit_call(target, region),)),
    ensures
        commit_answer(target, region, os, seen(r)),
{
    let (ptr, len) = match region_parts(region, target) {
        Ok(parts) => parts,
        Err(error) => return Err(error),
    };
    match target {
        Target::Linux(arch) => linux::commit(arch, ptr, len, os),
        Target::Windows => windows::commit(ptr, len, os),
        Target::MacOs => macos::commit(ptr, len, os),
    }
}

/// Discards a region's contents and makes it inaccessible while retaining its
/// address range. Nothing is discarded where it cannot be made inaccessible.
///
/// `region` is a currently reserved region returned by [`reserve`], and nothing
/// in it may be used until it is committed again.
pub fn decommit<F: Fn(OsCall) -> OsReply>(region: Region, target: Target, os: F) -> (r: Result<
    (),
    Error,
>)
    requires
        can_decommit(target, region, os),
    ensures
        decommit_answer(target, region, os, seen(r)),
{
    let (ptr, len) = match region_parts(region, target) {
        Ok(parts) => parts,
        Err(error) => return Err(error),
    };
    match target {
        Target::Linux(arch) => linux::decommit(arch, ptr, len, os),
        Target::Windows => windows::decommit(ptr, len, os),
        Target::MacOs => macos::decommit(ptr, len, os),
    }
}

/// Releases a reserved region back to the operating system.
///
/// `region` is a currently reserved region returned by [`reserve`], and it is
/// not used after this call.
pub fn release<F: FnOnce(OsCall) -> OsReply>(region: Region, target: Target, os: F) -> (r: Result<
    (),
    Error,
>)
    requires
        region.names_memory() ==> call_requires(os, (release_call(target, region),)),
    ensures
        release_answer(target, region, os, seen(r)),
{
    let (ptr, len) = match region_parts(region, target) {
        Ok(parts) => parts,
        Err(error) => return Err(error),
    };
    match target {
        Target::Linux(arch) => linux::release(arch, ptr, len, os),
        Target::Windows => windows::release(ptr, len, os),
        Target::MacOs => macos::release(ptr, len, os),
    }
}

/// The start and the length of a region, unless it is null or empty.
pub fn region_parts(region: Region, target: Target) -> (r: Result<(usize, usize), Error>)
    ensures
        seen(r) == if region.names_memory() {
            Ok::<(usize, usize), i32>((region.addr, region.len))
        } else {
            Err(invalid_parameter_code(target))
        },
{
    let len = region.len;
    let ptr = region.addr;
    if ptr == 0 || len == 0 {
        Err(invalid_parameter(target))
    } else {
        Ok((ptr, len))
    }
}

} // verus!
