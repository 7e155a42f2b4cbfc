//! What the operating system is asked for, and what its answers come to, in
//! terms of the calls and replies themselves.
use crate::sys::linux;
use crate::sys::{Arch, OsCall, OsReply, Target};
use crate::virtual_mem;
use crate::virtual_mem::{Error, Region};
use vstd::prelude::*;

verus! {

/// A region that is null or empty is not committed; the platform's code for an
/// invalid argument is the answer. Any other region is committed by one call
/// that makes all of it, and nothing else, readable and writable. The answer is
/// success exactly if the reply is not the platform's sign of failure, and else
/// the code that the failure left behind.
pub proof fn law_commit_opens_the_whole_region<F: FnOnce(OsCall) -> OsReply>(
    target: Target,
    region: Region,
    os: F,
    out: Result<(), i32>,
)
    requires
        virtual_mem::commit_answer(target, region, os, out),
    ensures
        region.addr == 0 || region.len == 0 ==> out == Err::<(), i32>(
            if target is Windows {
                87i32
            } else {
                22i32
            },
        ),
        region.addr != 0 && region.len != 0 ==> exists|call: OsCall, reply: OsReply|
            #[trigger] call_ensures(os, (call,), reply) && match target {
                Target::Linux(arch) => {
                    &&& call == (OsCall::Syscall {
                        number: match arch {
                            Arch::X86_64 => 10,
                            Arch::Aarch64 => 226,
                            Arch::Riscv64 => 226,
                            Arch::X86 => 125,
                            Arch::Arm => 125,
                        },
                        a0: region.addr,
                        a1: region.len,
                        a2: 3,
                        a3: 0,
                        a4: 0,
                        a5: 0,
                    })
                    &&& reply.value != usize::MAX ==> out == Ok::<(), i32>(())
                    &&& reply.value == usize::MAX ==> out == Err::<(), i32>(reply.last_error)
                },
                Target::Windows => {
                    &&& call == (OsCall::VirtualAlloc {
                        address: region.addr,
                        size: region.len,
                        allocation_type: 0x1000,
                        protect: 0x04,
                    })
                    &&& reply.value != 0 ==> out == Ok::<(), i32>(())
                    &&& reply.value == 0 ==> out == Err::<(), i32>(reply.last_error)
                },
                Target::MacOs => {
                    &&& call == (OsCall::Mprotect {
                        address: region.addr,
                        len: region.len,
                        protection: 3,
                    })
                    &&& reply.value != usize::MAX ==> out == Ok::<(), i32>(())
                    &&& reply.value == usize::MAX ==> out == Err::<(), i32>(reply.last_error)
                },
            },
{
    if region.addr != 0 && region.len != 0 {
        let reply = choose|reply: OsReply| #[trigger]
            call_ensures(os, (virtual_mem::commit_call(target, region),), reply) && out
                == virtual_mem::status_of(target, reply);
        assert(call_ensures(os, (virtual_mem::commit_call(target, region),), reply));
    }
}

/// An empty reservation is refused with the platform's code for an invalid
/// argument. Any other is one call for that many inaccessible bytes anywhere.
/// What is granted starts at exactly the address that the system returned and
/// has exactly the length that was asked for; what is not granted is answered
/// with the code that the failure left behind.
pub proof fn law_reservation_is_what_the_system_returned<F: FnOnce(OsCall) -> OsReply>(
    target: Target,
    size: usize,
    os: F,
    out: Result<Region, i32>,
)
    requires
        virtual_mem::reserve_answer(target, size, os, out),
    ensures
        size == 0 ==> out == Err::<Region, i32>(
            if target is Windows {
                87i32
            } else {
                22i32
            },
        ),
        size != 0 ==> exists|call: OsCall, reply: OsReply| #[trigger]
            call_ensures(os, (call,), reply) && {
                &&& match out {
                    Ok(region) => region.addr == reply.value && region.len == size,
                    Err(code) => code == reply.last_error,
                }
                &&& match target {
                    Target::Linux(arch) => {
                        &&& call == (OsCall::Syscall {
                            number: match arch {
                                Arch::X86_64 => 9,
                                Arch::Aarch64 => 222,
                                Arch::Riscv64 => 222,
                                Arch::X86 => 192,
                                Arch::Arm => 192,
                            },
                            a0: 0,
                            a1: size,
                            a2: 0,
                            a3: 0x22,
                            a4: usize::MAX,
                            a5: 0,
                        })
                        &&& out is Ok <==> reply.value != usize::MAX
                    },
                    Target::Windows => {
                        &&& call == (OsCall::VirtualAlloc {
                            address: 0,
                            size,
                            allocation_type: 0x2000,
                            protect: 0x01,
                        })
                        &&& out is Ok <==> reply.value != 0
                    },
                    Target::MacOs => {
                        &&& call matches OsCall::Mmap {
                            address,
                            len,
                            protection,
                            flags,
                            fd,
                            offset,
                        }
                        &&& address == 0
                        &&& len == size
                        &&& protection == 0
                        &&& flags == 0x1002
                        &&& fd == -1
                        &&& offset == 0
                        &&& out is Ok <==> reply.value != usize::MAX
                    },
                }
            },
{
    if size != 0 {
        let reply = choose|reply: OsReply| #[trigger]
            call_ensures(os, (virtual_mem::reserve_call(target, size),), reply) && out
                == virtual_mem::reservation_of(target, size, reply);
        assert(call_ensures(os, (virtual_mem::reserve_call(target, size),), reply));
    }
}

/// A region that is null or empty is not released. Any other is given back by
/// one call for all of it; Windows is told the start alone and a length of zero,
/// which is how it names a whole reservation.
pub proof fn law_release_gives_the_whole_region_back<F: FnOnce(OsCall) -> OsReply>(
    target: Target,
    region: Region,
    os: F,
    out: Result<(), i32>,
)
    requires
        virtual_mem::release_answer(target, region, os, out),
    ensures
        region.addr == 0 || region.len == 0 ==> out == Err::<(), i32>(
            if target is Windows {
                87i32
            } else {
                22i32
            },
        ),
        region.addr != 0 && region.len != 0 ==> exists|call: OsCall, reply: OsReply|
            #[trigger] call_ensures(os, (call,), reply) && match target {
                Target::Linux(arch) => {
                    &&& call == (OsCall::Syscall {
                        number: match arch {
                            Arch::X86_64 => 11,
                            Arch::Aarch64 => 215,
                            Arch::Riscv64 => 215,
                            Arch::X86 => 91,
                            Arch::Arm => 91,
                        },
                        a0: region.addr,
                        a1: region.len,
                        a2: 0,
                        a3: 0,
                        a4: 0,
                        a5: 0,
                    })
                    &&& reply.value != usize::MAX ==> out == Ok::<(), i32>(())
                    &&& reply.value == usize::MAX ==> out == Err::<(), i32>(reply.last_error)
                },
                Target::Windows => {
                    &&& call == (OsCall::VirtualFree {
                        address: region.addr,
                        size: 0,
                        free_type: 0x8000,
                    })
                    &&& reply.value != 0 ==> out == Ok::<(), i32>(())
                    &&& reply.value == 0 ==> out == Err::<(), i32>(reply.last_error)
                },
                Target::MacOs => {
                    &&& call == (OsCall::Munmap { address: region.addr, len: region.len })
                    &&& reply.value != usize::MAX ==> out == Ok::<(), i32>(())
                    &&& reply.value == usize::MAX ==> out == Err::<(), i32>(reply.last_error)
                },
            },
{
    if region.addr != 0 && region.len != 0 {
        let reply = choose|reply: OsReply| #[trigger]
            call_ensures(os, (virtual_mem::release_call(target, region),), reply) && out
                == virtual_mem::status_of(target, reply);
        assert(call_ensures(os, (virtual_mem::release_call(target, region),), reply));
    }
}

/// A region that is null or empty is not decommitted. Any other is first made
/// inaccessible, all of it; a failure there is the answer. On Linux and macOS
/// the contents of all of it are then let go, and how that came out is the
/// answer. On Windows the first call does both.
pub proof fn law_decommit_closes_and_discards_the_whole_region<F: FnOnce(OsCall) -> OsReply>(
    target: Target,
    region: Region,
    os: F,
    out: Result<(), i32>,
)
    requires
        virtual_mem::decommit_answer(target, region, os, out),
    ensures
        region.addr == 0 || region.len == 0 ==> out == Err::<(), i32>(
            if target is Windows {
                87i32
            } else {
                22i32
            },
        ),
        region.addr != 0 && region.len != 0 ==> exists|call: OsCall, first: OsReply|
            #[trigger] call_ensures(os, (call,), first) && match target {
                Target::Linux(arch) => {
                    &&& call == (OsCall::Syscall {
                        number: match arch {
                            Arch::X86_64 => 10,
                            Arch::Aarch64 => 226,
                            Arch::Riscv64 => 226,
                            Arch::X86 => 125,
                            Arch::Arm => 125,
                        },
                        a0: region.addr,
                        a1: region.len,
                        a2: 0,
                        a3: 0,
                        a4: 0,
                        a5: 0,
                    })
                    &&& first.value == usize::MAX ==> out == Err::<(), i32>(first.last_error)
                    &&& first.value != usize::MAX ==> exists|discard: OsCall, second: OsReply|
                        #[trigger] call_ensures(os, (discard,), second) && {
                            &&& discard == (OsCall::Syscall {
                                number: match arch {
                                    Arch::X86_64 => 28,
                                    Arch::Aarch64 => 233,
                                    Arch::Riscv64 => 233,
                                    Arch::X86 => 219,
                                    Arch::Arm => 220,
                                },
                                a0: region.addr,
                                a1: region.len,
                                a2: 4,
                                a3: 0,
                                a4: 0,
                                a5: 0,
                            })
                            &&& second.value != usize::MAX ==> out == Ok::<(), i32>(())
                            &&& second.value == usize::MAX ==> out == Err::<(), i32>(
                                second.last_error,
                            )
                        }
                },
                Target::Windows => {
                    &&& call == (OsCall::VirtualFree {
                        address: region.addr,
                        size: region.len,
                        free_type: 0x4000,
                    })
                    &&& first.value != 0 ==> out == Ok::<(), i32>(())
                    &&& first.value == 0 ==> out == Err::<(), i32>(first.last_error)
                },
                Target::MacOs => {
                    &&& call == (OsCall::Mprotect {
                        address: region.addr,
                        len: region.len,
                        protection: 0,
                    })
                    &&& first.value == usize::MAX ==> out == Err::<(), i32>(first.last_error)
                    &&& first.value != usize::MAX ==> exists|discard: OsCall, second: OsReply|
                        #[trigger] call_ensures(os, (discard,), second) && {
                            &&& discard == (OsCall::Madvise {
                                address: region.addr,
                                len: region.len,
                                advice: 4,
                            })
                            &&& second.value != usize::MAX ==> out == Ok::<(), i32>(())
                            &&& second.value == usize::MAX ==> out == Err::<(), i32>(
                                second.last_error,
                            )
                        }
                },
            },
{
    if region.addr != 0 && region.len != 0 {
        let first = choose|first: OsReply| #[trigger]
            call_ensures(os, (virtual_mem::decommit_call(target, region),), first) && match (
                virtual_mem::status_of(target, first),
                virtual_mem::discard_call(target, region),
            ) {
                (Ok(()), Some(discard)) => exists|second: OsReply| #[trigger]
                    call_ensures(os, (discard,), second) && out == virtual_mem::status_of(
                        target,
                        second,
                    ),
                (status, _) => out == status,
            };
        assert(call_ensures(os, (virtual_mem::decommit_call(target, region),), first));
        if virtual_mem::status_of(target, first) is Ok && !(target is Windows) {
            let discard = virtual_mem::discard_call(target, region)->Some_0;
            let second = choose|second: OsReply| #[trigger]
                call_ensures(os, (discard,), second) && out == virtual_mem::status_of(
                    target,
                    second,
                );
            assert(call_ensures(os, (discard,), second));
        }
    }
}

/// On Linux decommitting asks no more of a caller than that the region can be made
/// inaccessible, and that its contents can be let go once that has succeeded.
/// Nothing is let go before, or after a failure.
pub proof fn law_linux_discards_only_what_is_closed<F: FnOnce(OsCall) -> OsReply>(
    arch: Arch,
    mprotect: usize,
    madvise: usize,
    region: Region,
    os: F,
)
    requires
        mprotect == (match arch {
            Arch::X86_64 => 10usize,
            Arch::Aarch64 => 226,
            Arch::Riscv64 => 226,
            Arch::X86 => 125,
            Arch::Arm => 125,
        }),
        madvise == (match arch {
            Arch::X86_64 => 28usize,
            Arch::Aarch64 => 233,
            Arch::Riscv64 => 233,
            Arch::X86 => 219,
            Arch::Arm => 220,
        }),
        call_requires(
            os,
            (OsCall::Syscall {
                number: mprotect,
                a0: region.addr,
                a1: region.len,
                a2: 0,
                a3: 0,
                a4: 0,
                a5: 0,
            },),
        ),
        forall|first: OsReply| #[trigger]
            call_ensures(
                os,
                (OsCall::Syscall {
                    number: mprotect,
                    a0: region.addr,
                    a1: region.len,
                    a2: 0,
                    a3: 0,
                    a4: 0,
                    a5: 0,
                },),
                first,
            ) && first.value != usize::MAX ==> call_requires(
                os,
                (OsCall::Syscall {
                    number: madvise,
                    a0: region.addr,
                    a1: region.len,
                    a2: 4,
                    a3: 0,
                    a4: 0,
                    a5: 0,
                },),
            ),
    ensures
        virtual_mem::can_decommit(Target::Linux(arch), region, os),
{
}

/// The same on macOS.
pub proof fn law_macos_discards_only_what_is_closed<F: FnOnce(OsCall) -> OsReply>(
    region: Region,
    os: F,
)
    requires
        call_requires(
            os,
            (OsCall::Mprotect { address: region.addr, len: region.len, protection: 0 },),
        ),
        forall|first: OsReply| #[trigger]
            call_ensures(
                os,
                (OsCall::Mprotect { address: region.addr, len: region.len, protection: 0 },),
                first,
            ) && first.value != usize::MAX ==> call_requires(
                os,
                (OsCall::Madvise { address: region.addr, len: region.len, advice: 4 },),
            ),
    ensures
        virtual_mem::can_decommit(Target::MacOs, region, os),
{
}

/// On Windows there is one call only.
pub proof fn law_windows_decommits_by_one_call<F: FnOnce(OsCall) -> OsReply>(
    region: Region,
    os: F,
)
    requires
        call_requires(
            os,
            (OsCall::VirtualFree { address: region.addr, size: region.len, free_type: 0x4000 },),
        ),
    ensures
        virtual_mem::can_decommit(Target::Windows, region, os),
{
}

/// A region that names no memory is decommitted by no call.
pub proof fn law_nothing_is_decommitted_by_no_call<F: FnOnce(OsCall) -> OsReply>(
    target: Target,
    region: Region,
    os: F,
)
    requires
        region.addr == 0 || region.len == 0,
    ensures
        virtual_mem::can_decommit(target, region, os),
{
}

/// The numbers of the Linux system calls on each processor family.
pub proof fn law_linux_system_call_numbers(arch: Arch)
    ensures
        ({
            let n = linux::numbers_of(arch);
            match arch {
                Arch::X86_64 => n.mmap == 9 && n.mprotect == 10 && n.munmap == 11 && n.madvise
                    == 28,
                Arch::Aarch64 => n.mmap == 222 && n.mprotect == 226 && n.munmap == 215
                    && n.madvise == 233,
                Arch::Riscv64 => n.mmap == 222 && n.mprotect == 226 && n.munmap == 215
                    && n.madvise == 233,
                Arch::X86 => n.mmap == 192 && n.mprotect == 125 && n.munmap == 91 && n.madvise
                    == 219,
                Arch::Arm => n.mmap == 192 && n.mprotect == 125 && n.munmap == 91 && n.madvise
                    == 220,
            }
        }),
{
}

/// A region names memory if it is neither null nor empty, and one that does not
/// is answered with the platform's code for an invalid argument.
pub proof fn law_null_and_empty_regions_name_nothing(region: Region, target: Target)
    ensures
        region.names_memory() <==> region.addr != 0 && region.len != 0,
        virtual_mem::invalid_parameter_code(target) == if target is Windows {
            87i32
        } else {
            22i32
        },
{
}

/// A result with its error seen as a code keeps what succeeded and the code of
/// what failed.
pub proof fn law_seen_results_keep_value_and_code<T>(r: Result<T, Error>)
    ensures
        match r {
            Ok(value) => virtual_mem::seen(r) == Ok::<T, i32>(value),
            Err(error) => virtual_mem::seen(r) == Err::<T, i32>(error@),
        },
{
}

} // verus!
