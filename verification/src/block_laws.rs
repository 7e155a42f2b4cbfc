//! What an allocation does to an arena and to its memory, in terms of addresses,
//! calls and replies.
use crate::arna::{default_written, place_of, reserves_in_bounds, slice_place, Slots};
use crate::layout::{padding, round_up, Extent};
use crate::state::{ArnaState, CheckpointState, OOM};
use crate::sys::{Arch, OsCall, OsReply, Target};
use crate::virtual_mem;
use crate::virtual_mem::Region;
use vstd::arithmetic::power2::is_pow2;
use vstd::prelude::*;

verus! {

/// The padding in front of an address leads to the next multiple of the
/// alignment and no farther.
pub proof fn law_padding_leads_to_the_next_multiple(addr: nat, align: nat, x: nat)
    requires
        align > 0,
    ensures
        (addr + padding(addr, align)) % align == 0,
        padding(addr, align) < align,
        addr <= x < addr + padding(addr, align) ==> x % align != 0,
        round_up(addr, align) % align == 0,
        addr <= round_up(addr, align) < addr + align,
{
    let p = addr as int / align as int;
    let q = x as int / align as int;
    let r = addr as int % align as int;
    vstd::arithmetic::div_mod::lemma_fundamental_div_mod(addr as int, align as int);
    vstd::arithmetic::div_mod::lemma_fundamental_div_mod(x as int, align as int);
    if addr % align == 0 {
    } else {
        assert(addr + padding(addr, align) == (p + 1) * align) by (nonlinear_arith)
            requires
                addr == align * p + r,
                padding(addr, align) == align - r,
        ;
        vstd::arithmetic::div_mod::lemma_mod_multiples_basic(p + 1, align as int);
        if addr <= x < addr + padding(addr, align) && x % align == 0 {
            assert(false) by (nonlinear_arith)
                requires
                    addr == align * p + r,
                    x == align * q,
                    0 < r < align,
                    addr <= x < addr + (align - r),
            ;
        }
    }
}

proof fn lemma_smaller_power_divides(a: int, b: int)
    requires
        is_pow2(a),
        is_pow2(b),
        a <= b,
    ensures
        b % a == 0,
    decreases a,
{
    reveal(is_pow2);
    if a > 1 {
        lemma_smaller_power_divides(a / 2, b / 2);
        let h = a / 2;
        let q = (b / 2) / h;
        vstd::arithmetic::div_mod::lemma_fundamental_div_mod(b / 2, h);
        assert(b == q * a) by (nonlinear_arith)
            requires
                b == 2 * (b / 2),
                b / 2 == h * q,
                a == 2 * h,
        ;
        vstd::arithmetic::div_mod::lemma_mod_multiples_basic(q, a);
    }
}

/// Every alignment divides the size of the address space.
proof fn lemma_alignment_divides_address_space(align: nat)
    requires
        is_pow2(align as int),
        align <= isize::MAX + 1,
    ensures
        (usize::MAX + 1) % (align as int) == 0,
{
    vstd::layout::unsigned_int_max_values();
    vstd::arithmetic::power2::lemma_pow2(usize::BITS as nat);
    vstd::arithmetic::power2::is_pow2_equiv(usize::MAX + 1);
    lemma_smaller_power_divides(align as int, usize::MAX + 1);
}

/// A block starts at the first multiple of its alignment from the cursor on,
/// however far the cursor has gone, and ends its size behind that. The request
/// itself moves the position to that end and changes nothing else.
pub proof fn law_block_starts_at_the_next_multiple(s: ArnaState, e: Extent, x: nat)
    requires
        s.wf(),
        e.valid(),
    ensures
        (s.ptr + s.start(e)) % e.align == 0,
        s.pos <= s.start(e) < s.pos + e.align,
        s.ptr + s.pos <= x < s.ptr + s.start(e) ==> x % e.align != 0,
        s.end(e) == s.start(e) + e.size,
        s.advanced(e).pos == s.start(e) + e.size,
        s.advanced(e).commited == s.commited,
        s.advanced(e).ptr == s.ptr,
        s.advanced(e).cap == s.cap,
        s.advanced(e).depth == s.depth,
{
    reveal(is_pow2);
    let align = e.align;
    if s.ptr + s.pos > usize::MAX {
        let m = usize::MAX + 1;
        lemma_alignment_divides_address_space(align);
        let c = s.cursor();
        assert(s.ptr + s.pos == c + m);
        vstd::arithmetic::div_mod::lemma_fundamental_div_mod(m, align as int);
        let k = m / align as int;
        assert(m == align * k);
        let below = if x >= m {
            (x - m) as nat
        } else {
            0
        };
        law_padding_leads_to_the_next_multiple(c, align, below);
        lemma_shift(c + padding(c, align) as int, k, align as int);
        lemma_shift(below as int, k, align as int);
    } else {
        law_padding_leads_to_the_next_multiple(s.cursor(), align, x);
    }
}

proof fn lemma_shift(x: int, k: int, align: int)
    requires
        align > 0,
    ensures
        (x + align * k) % align == x % align,
{
    vstd::arithmetic::div_mod::lemma_mod_multiples_vanish(k, x, align);
}

/// Whatever comes of a request, the arena keeps its memory and its checkpoints.
pub proof fn law_request_keeps_memory_and_checkpoints<F: FnOnce(OsCall) -> OsReply>(
    s: ArnaState,
    e: Extent,
    target: Target,
    os: F,
    after: ArnaState,
    out: Result<usize, OOM>,
)
    requires
        s.allocates(e, target, os, after, out),
    ensures
        after.ptr == s.ptr,
        after.cap == s.cap,
        after.depth == s.depth,
        s.commited > s.cap ==> after.commited == s.commited,
{
}

/// A block that is handed out lies at the first multiple of its alignment from
/// the cursor on; the position moves exactly to its end, which lies in the arena.
pub proof fn law_block_handed_out_is_the_first_that_fits<F: FnOnce(OsCall) -> OsReply>(
    s: ArnaState,
    e: Extent,
    target: Target,
    os: F,
    after: ArnaState,
    addr: usize,
    x: nat,
)
    requires
        s.wf(),
        e.valid(),
        s.allocates(e, target, os, after, Ok(addr)),
    ensures
        addr as nat % e.align == 0,
        s.ptr + s.pos <= addr,
        s.ptr + s.pos <= x < addr ==> x % e.align != 0,
        s.ptr + after.pos == addr + e.size,
        addr + e.size <= s.ptr + s.cap,
{
    law_block_starts_at_the_next_multiple(s, e, x);
}

/// Two requests in a row give blocks one behind the other, without a gap where
/// the alignment asks for none.
pub proof fn law_blocks_follow_each_other<F: FnOnce(OsCall) -> OsReply, G: FnOnce(OsCall) -> OsReply>(
    s: ArnaState,
    e: Extent,
    target: Target,
    os: F,
    between: ArnaState,
    first: usize,
    next: Extent,
    os_again: G,
    after: ArnaState,
    second: usize,
)
    requires
        s.wf(),
        between.wf(),
        e.valid(),
        next.valid(),
        s.allocates(e, target, os, between, Ok(first)),
        between.allocates(next, target, os_again, after, Ok(second)),
    ensures
        first + e.size <= second < first + e.size + next.align,
        next.align == 1 ==> second == first + e.size,
{
    law_block_handed_out_is_the_first_that_fits(s, e, target, os, between, first, 0);
    law_block_starts_at_the_next_multiple(between, next, 0);
}

/// Where a place fits and the system grants what it is asked for, the block is
/// handed out, over any backing. Over a slice or a box the system is not asked.
pub proof fn law_block_that_fits_is_handed_out<F: FnOnce(OsCall) -> OsReply>(
    s: ArnaState,
    e: Extent,
    target: Target,
    os: F,
    after: ArnaState,
    out: Result<usize, OOM>,
    x: nat,
)
    requires
        s.wf(),
        e.valid(),
        s.allocates(e, target, os, after, out),
        s.ptr + s.pos <= x,
        x % e.align == 0,
        x + e.size <= s.ptr + s.cap,
        s.commited > s.cap || s.ptr != 0 && forall|call: OsCall, reply: OsReply| #[trigger]
            call_ensures(os, (call,), reply) ==> if target is Windows {
                reply.value != 0
            } else {
                reply.value != usize::MAX
            },
    ensures
        out is Ok,
{
    law_block_starts_at_the_next_multiple(s, e, x);
    lemma_commit_bounds(s, e);
    let committed = choose|committed: bool|
        {
            &&& #[trigger] s.commit_outcome(e, target, os, committed)
            &&& after == s.after_alloc(e, committed)
            &&& out == s.placed(e, committed)
        };
    if s.needs_commit(e) {
        let reading = choose|reading: Result<(), i32>| #[trigger]
            virtual_mem::commit_answer(target, s.commit_region(e), os, reading) && committed == (
            reading is Ok);
        crate::call_laws::law_commit_opens_the_whole_region(
            target,
            s.commit_region(e),
            os,
            reading,
        );
    }
}

proof fn lemma_commit_bounds(s: ArnaState, e: Extent)
    requires
        s.wf(),
    ensures
        s.commited <= s.cap ==> {
            let len = s.commit_region(e).len;
            &&& s.commit_region(e).addr == s.ptr
            &&& len as int % 0x1_0000 == 0
            &&& s.commited <= len <= s.cap
            &&& s.end(e) <= s.cap ==> s.end(e) <= len
            &&& s.end(e) > s.cap ==> len == s.cap
            &&& s.commited + 0x10_0000 <= len || len == s.cap
            &&& len < s.commited + 0x10_0000 + 0x1_0000 || len < s.end(e) + 0x1_0000
        },
{
    if s.commited <= s.cap {
        crate::laws::law_commit_reaches_the_block(s, e);
    }
}

/// Where no place fits, the request is refused. Over a slice or a box all that
/// is left is used up, and nothing else changes. Over reserved memory that is
/// null or empty the bytes that were asked for stay taken.
pub proof fn law_block_that_does_not_fit_is_refused<F: FnOnce(OsCall) -> OsReply>(
    s: ArnaState,
    e: Extent,
    target: Target,
    os: F,
    after: ArnaState,
    out: Result<usize, OOM>,
)
    requires
        s.wf(),
        e.valid(),
        s.allocates(e, target, os, after, out),
        forall|x: nat|
            s.ptr + s.pos <= x && #[trigger] (x % e.align) == 0 ==> x + e.size > s.ptr + s.cap,
    ensures
        out == Err::<usize, OOM>(OOM),
        s.commited > s.cap ==> after == (ArnaState { pos: s.cap, ..s }),
        s.commited <= s.cap && (s.ptr == 0 || s.cap == 0) ==> {
            &&& after.commited == s.commited
            &&& (s.ptr + after.pos - e.size) % (e.align as int) == 0
            &&& s.pos + e.size <= after.pos < s.pos + e.size + e.align
        },
{
    law_block_starts_at_the_next_multiple(s, e, 0);
    assert((s.ptr + s.start(e)) % e.align == 0);
    lemma_commit_bounds(s, e);
    let committed = choose|committed: bool|
        {
            &&& #[trigger] s.commit_outcome(e, target, os, committed)
            &&& after == s.after_alloc(e, committed)
            &&& out == s.placed(e, committed)
        };
    if s.needs_commit(e) {
        let reading = choose|reading: Result<(), i32>| #[trigger]
            virtual_mem::commit_answer(target, s.commit_region(e), os, reading) && committed == (
            reading is Ok);
        crate::call_laws::law_commit_opens_the_whole_region(
            target,
            s.commit_region(e),
            os,
            reading,
        );
    }
}

/// Where no place fits in an arena over reserved memory, the system is asked to
/// open all of that memory. If it does, all that is left is used up and all is
/// committed; if it refuses, the bytes that were asked for stay taken.
pub proof fn law_virtual_arena_is_opened_before_it_runs_out<F: FnOnce(OsCall) -> OsReply>(
    s: ArnaState,
    e: Extent,
    target: Target,
    os: F,
    after: ArnaState,
    out: Result<usize, OOM>,
)
    requires
        s.wf(),
        e.valid(),
        s.commited <= s.cap,
        s.ptr != 0,
        s.cap != 0,
        s.allocates(e, target, os, after, out),
        forall|x: nat|
            s.ptr + s.pos <= x && #[trigger] (x % e.align) == 0 ==> x + e.size > s.ptr + s.cap,
    ensures
        exists|call: OsCall, reply: OsReply| #[trigger]
            call_ensures(os, (call,), reply) && match target {
            Target::Linux(arch) => {
                &&& call == (OsCall::Syscall {
                    number: match arch {
                        Arch::X86_64 => 10,
                        Arch::Aarch64 => 226,
                        Arch::Riscv64 => 226,
                        Arch::X86 => 125,
                        Arch::Arm => 125,
                    },
                    a0: s.ptr as usize,
                    a1: s.cap as usize,
                    a2: 3,
                    a3: 0,
                    a4: 0,
                    a5: 0,
                })
                &&& after.commited == (if reply.value == usize::MAX { s.commited } else { s.cap })
                &&& reply.value != usize::MAX ==> after.pos == s.cap
                &&& reply.value == usize::MAX ==> (s.ptr + after.pos - e.size) % (e.align as int) == 0
                    && s.pos + e.size <= after.pos < s.pos + e.size + e.align
            },
            Target::Windows => {
                &&& call == (OsCall::VirtualAlloc {
                    address: s.ptr as usize,
                    size: s.cap as usize,
                    allocation_type: 0x1000,
                    protect: 0x04,
                })
                &&& after.commited == (if reply.value == 0 { s.commited } else { s.cap })
                &&& reply.value != 0 ==> after.pos == s.cap
                &&& reply.value == 0 ==> (s.ptr + after.pos - e.size) % (e.align as int) == 0
                    && s.pos + e.size <= after.pos < s.pos + e.size + e.align
            },
            Target::MacOs => {
                &&& call == (OsCall::Mprotect {
                    address: s.ptr as usize,
                    len: s.cap as usize,
                    protection: 3,
                })
                &&& after.commited == (if reply.value == usize::MAX { s.commited } else { s.cap })
                &&& reply.value != usize::MAX ==> after.pos == s.cap
                &&& reply.value == usize::MAX ==> (s.ptr + after.pos - e.size) % (e.align as int) == 0
                    && s.pos + e.size <= after.pos < s.pos + e.size + e.align
            },
        },
{
    law_block_starts_at_the_next_multiple(s, e, 0);
    assert((s.ptr + s.start(e)) % e.align == 0);
    lemma_commit_bounds(s, e);
    let committed = choose|committed: bool|
        {
            &&& #[trigger] s.commit_outcome(e, target, os, committed)
            &&& after == s.after_alloc(e, committed)
            &&& out == s.placed(e, committed)
        };
    let reading = choose|reading: Result<(), i32>| #[trigger]
        virtual_mem::commit_answer(target, s.commit_region(e), os, reading) && committed == (
        reading is Ok);
    crate::call_laws::law_commit_opens_the_whole_region(target, s.commit_region(e), os, reading);
}

/// A block of an arena over reserved memory that ends beyond what was committed
/// is handed out only after the system was asked to make readable and writable a
/// region that starts with the arena and reaches the end of the block, and said
/// that it did. That region is then what counts as committed. It consists of
/// whole pages of 64 KiB, and it is a chunk of 1 MiB more than before, or what
/// the block needs if that is more, or all there is if that is less.
pub proof fn law_virtual_block_was_opened_by_the_system<F: FnOnce(OsCall) -> OsReply>(
    s: ArnaState,
    e: Extent,
    target: Target,
    os: F,
    after: ArnaState,
    addr: usize,
)
    requires
        s.wf(),
        s.commited <= s.cap,
        s.allocates(e, target, os, after, Ok(addr)),
        addr + e.size > s.ptr + s.commited,
    ensures
        addr + e.size <= s.ptr + after.commited <= s.ptr + s.cap,
        after.commited % 0x1_0000 == 0,
        s.commited + 0x10_0000 <= after.commited || after.commited == s.cap,
        after.commited < s.commited + 0x10_0000 + 0x1_0000 || s.ptr + after.commited < addr
            + e.size + 0x1_0000,
        exists|call: OsCall, reply: OsReply| #[trigger]
            call_ensures(os, (call,), reply) && match target {
            Target::Linux(arch) => {
                &&& call == (OsCall::Syscall {
                    number: match arch {
                        Arch::X86_64 => 10,
                        Arch::Aarch64 => 226,
                        Arch::Riscv64 => 226,
                        Arch::X86 => 125,
                        Arch::Arm => 125,
                    },
                    a0: s.ptr as usize,
                    a1: after.commited as usize,
                    a2: 3,
                    a3: 0,
                    a4: 0,
                    a5: 0,
                })
                &&& reply.value != usize::MAX
            },
            Target::Windows => {
                &&& call == (OsCall::VirtualAlloc {
                    address: s.ptr as usize,
                    size: after.commited as usize,
                    allocation_type: 0x1000,
                    protect: 0x04,
                })
                &&& reply.value != 0
            },
            Target::MacOs => {
                &&& call == (OsCall::Mprotect {
                    address: s.ptr as usize,
                    len: after.commited as usize,
                    protection: 3,
                })
                &&& reply.value != usize::MAX
            },
        },
{
    lemma_commit_bounds(s, e);
    let committed = choose|committed: bool|
        {
            &&& #[trigger] s.commit_outcome(e, target, os, committed)
            &&& after == s.after_alloc(e, committed)
            &&& Ok::<usize, OOM>(addr) == s.placed(e, committed)
        };
    let reading = choose|reading: Result<(), i32>| #[trigger]
        virtual_mem::commit_answer(target, s.commit_region(e), os, reading) && committed == (
        reading is Ok);
    crate::call_laws::law_commit_opens_the_whole_region(target, s.commit_region(e), os, reading);
}

/// A block that ends within what is committed changes nothing of that.
pub proof fn law_committed_memory_is_not_opened_again<F: FnOnce(OsCall) -> OsReply>(
    s: ArnaState,
    e: Extent,
    target: Target,
    os: F,
    after: ArnaState,
    addr: usize,
)
    requires
        s.wf(),
        s.allocates(e, target, os, after, Ok(addr)),
        addr + e.size <= s.ptr + s.commited,
    ensures
        after.commited == s.commited,
{
}

/// Where the system refuses everything, nothing is handed out beyond what was
/// committed before, and nothing more counts as committed.
pub proof fn law_refusal_of_the_system_is_out_of_memory<F: FnOnce(OsCall) -> OsReply>(
    s: ArnaState,
    e: Extent,
    target: Target,
    os: F,
    after: ArnaState,
    out: Result<usize, OOM>,
)
    requires
        s.wf(),
        s.commited <= s.cap,
        s.allocates(e, target, os, after, out),
        forall|call: OsCall, reply: OsReply| #[trigger]
            call_ensures(os, (call,), reply) ==> if target is Windows {
                reply.value == 0
            } else {
                reply.value == usize::MAX
            },
    ensures
        out matches Ok(addr) ==> addr + e.size <= s.ptr + s.commited,
        after.commited == s.commited,
{
    lemma_commit_bounds(s, e);
    let committed = choose|committed: bool|
        {
            &&& #[trigger] s.commit_outcome(e, target, os, committed)
            &&& after == s.after_alloc(e, committed)
            &&& out == s.placed(e, committed)
        };
    if s.needs_commit(e) {
        let reading = choose|reading: Result<(), i32>| #[trigger]
            virtual_mem::commit_answer(target, s.commit_region(e), os, reading) && committed == (
            reading is Ok);
        crate::call_laws::law_commit_opens_the_whole_region(
            target,
            s.commit_region(e),
            os,
            reading,
        );
    }
}

/// A request that is refused though it fits was refused by the system: it is one
/// to an arena over reserved memory, and a call to open that memory failed, or
/// the memory is at null. The bytes stay taken.
pub proof fn law_request_that_fits_is_refused_by_the_system_alone<F: FnOnce(OsCall) -> OsReply>(
    s: ArnaState,
    e: Extent,
    target: Target,
    os: F,
    after: ArnaState,
    x: nat,
)
    requires
        s.wf(),
        e.valid(),
        s.allocates(e, target, os, after, Err(OOM)),
        s.ptr + s.pos <= x,
        x % e.align == 0,
        x + e.size <= s.ptr + s.cap,
    ensures
        s.commited <= s.cap,
        after.commited == s.commited,
        (s.ptr + after.pos - e.size) % (e.align as int) == 0,
        s.pos + e.size <= after.pos < s.pos + e.size + e.align,
        after.pos > s.commited,
        s.ptr == 0 || exists|call: OsCall, reply: OsReply| #[trigger]
            call_ensures(os, (call,), reply) && match target {
                Target::Linux(arch) => {
                    &&& call matches OsCall::Syscall { number, a0, a1, a2, a3, a4, a5 }
                    &&& number == (match arch {
                        Arch::X86_64 => 10usize,
                        Arch::Aarch64 => 226,
                        Arch::Riscv64 => 226,
                        Arch::X86 => 125,
                        Arch::Arm => 125,
                    })
                    &&& a0 == s.ptr
                    &&& after.pos <= a1 <= s.cap
                    &&& a2 == 3
                    &&& a3 == 0 && a4 == 0 && a5 == 0
                    &&& reply.value == usize::MAX
                },
                Target::Windows => {
                    &&& call matches OsCall::VirtualAlloc {
                        address,
                        size,
                        allocation_type,
                        protect,
                    }
                    &&& address == s.ptr
                    &&& after.pos <= size <= s.cap
                    &&& allocation_type == 0x1000
                    &&& protect == 0x04
                    &&& reply.value == 0
                },
                Target::MacOs => {
                    &&& call matches OsCall::Mprotect { address, len, protection }
                    &&& address == s.ptr
                    &&& after.pos <= len <= s.cap
                    &&& protection == 3
                    &&& reply.value == usize::MAX
                },
            },
{
    law_block_starts_at_the_next_multiple(s, e, x);
    lemma_commit_bounds(s, e);
    let committed = choose|committed: bool|
        {
            &&& #[trigger] s.commit_outcome(e, target, os, committed)
            &&& after == s.after_alloc(e, committed)
            &&& Err::<usize, OOM>(OOM) == s.placed(e, committed)
        };
    let reading = choose|reading: Result<(), i32>| #[trigger]
        virtual_mem::commit_answer(target, s.commit_region(e), os, reading) && committed == (
        reading is Ok);
    crate::call_laws::law_commit_opens_the_whole_region(target, s.commit_region(e), os, reading);
}

/// The first half of an allocation asks for a commit exactly if the arena is over
/// reserved memory and the block ends beyond what is committed. What it asks for
/// starts with the arena, consists of whole pages of it, and reaches the end of
/// the block if that lies in the arena.
pub proof fn law_commit_is_asked_for_where_memory_is_not_open(s: ArnaState, e: Extent)
    requires
        s.wf(),
    ensures
        s.needs_commit(e) <==> s.commited <= s.cap && s.start(e) + e.size > s.commited,
        s.needs_commit(e) ==> {
            let region = s.commit_region(e);
            &&& region.addr == s.ptr
            &&& region.len as int % 0x1_0000 == 0
            &&& s.commited <= region.len <= s.cap
            &&& s.start(e) + e.size <= s.cap ==> s.start(e) + e.size <= region.len
            &&& s.start(e) + e.size > s.cap ==> region.len == s.cap
            &&& s.commited + 0x10_0000 <= region.len || region.len == s.cap
            &&& region.len < s.commited + 0x10_0000 + 0x1_0000 || region.len < s.start(e) + e.size
                + 0x1_0000
        },
{
    lemma_commit_bounds(s, e);
}

/// A region may count as committed if it is a start of the reserved memory that
/// holds all that was committed before.
pub proof fn law_what_may_count_as_committed(s: ArnaState, region: Region)
    ensures
        s.may_count_as_committed(region) <==> s.commited <= s.cap && region.addr == s.ptr
            && s.commited <= region.len && region.len <= s.cap,
{
}

/// An allocation asks no more of a caller than that the start of its memory can be
/// opened in whole pages, no less than is open already.
pub proof fn law_allocation_makes_no_other_call<F: FnOnce(OsCall) -> OsReply>(
    s: ArnaState,
    e: Extent,
    target: Target,
    os: F,
)
    requires
        s.wf(),
        forall|call: OsCall|
            (match target {
                Target::Linux(arch) => {
                    &&& call matches OsCall::Syscall { number, a0, a1, a2, a3, a4, a5 }
                    &&& number == (match arch {
                        Arch::X86_64 => 10usize,
                        Arch::Aarch64 => 226,
                        Arch::Riscv64 => 226,
                        Arch::X86 => 125,
                        Arch::Arm => 125,
                    })
                    &&& a0 == s.ptr
                    &&& s.commited <= a1 <= s.cap && a1 as int % 0x1_0000 == 0
                    &&& a2 == 3
                    &&& a3 == 0 && a4 == 0 && a5 == 0
                },
                Target::Windows => {
                    &&& call matches OsCall::VirtualAlloc {
                        address,
                        size,
                        allocation_type,
                        protect,
                    }
                    &&& address == s.ptr
                    &&& s.commited <= size <= s.cap && size as int % 0x1_0000 == 0
                    &&& allocation_type == 0x1000
                    &&& protect == 0x04
                },
                Target::MacOs => {
                    &&& call matches OsCall::Mprotect { address, len, protection }
                    &&& address == s.ptr
                    &&& s.commited <= len <= s.cap && len as int % 0x1_0000 == 0
                    &&& protection == 3
                },
            }) ==> #[trigger] call_requires(os, (call,)),
    ensures
        s.can_commit(e, target, os),
{
    lemma_commit_bounds(s, e);
}

/// No call is needed over a slice or a box, nor where a place fits in what is
/// committed.
pub proof fn law_open_memory_needs_no_call<F: FnOnce(OsCall) -> OsReply>(
    s: ArnaState,
    e: Extent,
    target: Target,
    os: F,
    x: nat,
)
    requires
        s.wf(),
        e.valid(),
        s.commited > s.cap || s.ptr + s.pos <= x && x % e.align == 0 && x + e.size <= s.ptr
            + s.commited,
    ensures
        s.can_commit(e, target, os),
{
    law_block_starts_at_the_next_multiple(s, e, x);
}

/// Values are written only to a block that lies in the arena at a multiple of its
/// alignment behind everything taken, and only where that memory is open: it is a
/// slice or a box, or it was committed before, or the system was asked to open it
/// up to the end of the block or beyond and said that it did. The result is where
/// the block starts.
pub proof fn law_values_are_written_to_open_memory<F: FnOnce(OsCall) -> OsReply>(
    s: ArnaState,
    e: Extent,
    target: Target,
    os: F,
) -> (addr: nat)
    requires
        s.wf(),
        e.valid(),
        s.may_write(e, target, os),
    ensures
        addr == s.ptr + s.start(e),
        addr % e.align == 0,
        s.ptr + s.pos <= addr,
        addr + e.size <= s.ptr + s.cap,
        s.commited > s.cap || addr + e.size <= s.ptr + s.commited || exists|
            call: OsCall,
            reply: OsReply,
        | #[trigger]
            call_ensures(os, (call,), reply) && match target {
                Target::Linux(arch) => {
                    &&& call matches OsCall::Syscall { number, a0, a1, a2, a3, a4, a5 }
                    &&& number == (match arch {
                        Arch::X86_64 => 10usize,
                        Arch::Aarch64 => 226,
                        Arch::Riscv64 => 226,
                        Arch::X86 => 125,
                        Arch::Arm => 125,
                    })
                    &&& a0 == s.ptr
                    &&& addr + e.size <= a0 + a1 <= s.ptr + s.cap
                    &&& a2 == 3
                    &&& a3 == 0 && a4 == 0 && a5 == 0
                    &&& reply.value != usize::MAX
                },
                Target::Windows => {
                    &&& call matches OsCall::VirtualAlloc {
                        address,
                        size,
                        allocation_type,
                        protect,
                    }
                    &&& address == s.ptr
                    &&& addr + e.size <= address + size <= s.ptr + s.cap
                    &&& allocation_type == 0x1000
                    &&& protect == 0x04
                    &&& reply.value != 0
                },
                Target::MacOs => {
                    &&& call matches OsCall::Mprotect { address, len, protection }
                    &&& address == s.ptr
                    &&& addr + e.size <= address + len <= s.ptr + s.cap
                    &&& protection == 3
                    &&& reply.value != usize::MAX
                },
            },
{
    law_block_starts_at_the_next_multiple(s, e, 0);
    lemma_commit_bounds(s, e);
    if s.needs_commit(e) {
        let reading = choose|reading: Result<(), i32>| #[trigger]
            virtual_mem::commit_answer(target, s.commit_region(e), os, reading) && true == (
            reading is Ok);
        crate::call_laws::law_commit_opens_the_whole_region(
            target,
            s.commit_region(e),
            os,
            reading,
        );
    }
    s.ptr + s.start(e)
}

/// An array of `len` values takes `len` times the size of one, at the alignment
/// of one, and is valid unless that passes `isize::MAX`.
pub proof fn law_array_takes_the_size_of_its_values<T>(len: nat)
    ensures
        Extent::array::<T>(len).size == len * vstd::layout::size_of::<T>(),
        Extent::array::<T>(len).align == vstd::layout::align_of::<T>(),
        Extent::array::<T>(len).valid() <==> len * vstd::layout::size_of::<T>()
            + vstd::layout::align_of::<T>() <= isize::MAX + 1,
{
}

/// An array that is handed out, of one value or of many, lies at a multiple of
/// the alignment of its values. What is taken afterwards ends where the last
/// value ends, and value number `i` lies `i` sizes from the start.
pub proof fn law_array_handed_out_holds_all_of_its_values<T, F: FnOnce(OsCall) -> OsReply>(
    s: ArnaState,
    len: nat,
    target: Target,
    os: F,
    after: ArnaState,
    addr: usize,
    i: int,
)
    requires
        s.wf(),
        Extent::array::<T>(len).valid(),
        s.allocates(Extent::array::<T>(len), target, os, after, Ok(addr)),
        0 <= i < len,
    ensures
        s.ptr + after.pos == addr + len * vstd::layout::size_of::<T>(),
        addr as nat % vstd::layout::align_of::<T>() == 0,
        s.slot::<T>(len, i) == addr + i * vstd::layout::size_of::<T>(),
        s.slot::<T>(len, i) + vstd::layout::size_of::<T>() <= s.ptr + after.pos,
        (Slots { addr, len: len as usize }).slot::<T>(i) == addr + i * vstd::layout::size_of::<T>(),
{
    let e = Extent::array::<T>(len);
    law_block_handed_out_is_the_first_that_fits(s, e, target, os, after, addr, 0);
    let size = vstd::layout::size_of::<T>();
    assert(0 <= i * size && i * size + size <= len * size) by (nonlinear_arith)
        requires
            0 <= i,
            i + 1 <= len,
            size >= 0,
    ;
}

/// Value number `i` of a room lies `i` sizes from its start.
pub proof fn law_places_lie_one_size_apart<T>(slots: Slots, i: int)
    requires
        slots.addr + slots.len * vstd::layout::size_of::<T>() <= usize::MAX,
        0 <= i < slots.len,
    ensures
        slots.slot::<T>(i) == slots.addr + i * vstd::layout::size_of::<T>(),
{
    let size = vstd::layout::size_of::<T>();
    assert(0 <= i * size <= slots.len * size) by (nonlinear_arith)
        requires
            0 <= i <= slots.len,
            size >= 0,
    ;
}

/// Room starts at the address of its first place.
pub proof fn law_room_starts_at_its_address(r: Result<Slots, OOM>)
    ensures
        match r {
            Ok(slots) => place_of(r) == Ok::<usize, OOM>(slots.addr),
            Err(oom) => place_of(r) == Err::<usize, OOM>(OOM),
        },
{
}

/// Where a default value has been written, `write` was handed that very address
/// and a value that `T::default` returned.
pub proof fn law_default_values_come_from_the_type<T: Default, W: Fn(usize, T)>(
    addr: usize,
    write: W,
)
    requires
        default_written::<T, W>(addr, write),
    ensures
        exists|v: T| #[trigger]
            call_ensures(write, (addr, v), ()) && call_ensures(T::default, (), v),
{
}

/// A layout is valid exactly if its alignment is a power of two and its size,
/// with room to align it, does not pass `isize::MAX`.
pub proof fn law_valid_layouts(e: Extent)
    ensures
        e.valid() <==> is_pow2(e.align as int) && e.size + e.align - 1 <= isize::MAX,
{
}

/// A slice can lie anywhere in the address space that it does not run out of, and
/// is no longer than `isize::MAX`.
pub proof fn law_where_slices_lie(region: Region)
    ensures
        slice_place(region) <==> region.addr + region.len <= usize::MAX && region.len
            <= isize::MAX,
{
}

/// A reservation that the system grants lies in the address space if the bytes
/// from the returned address on do.
pub proof fn law_reservations_in_bounds<F: FnOnce(OsCall) -> OsReply>(
    target: Target,
    size: usize,
    os: F,
)
    requires
        forall|call: OsCall, reply: OsReply| #[trigger]
            call_ensures(os, (call,), reply) && reply.value != (if target is Windows {
                0usize
            } else {
                usize::MAX
            }) ==> reply.value + size <= usize::MAX,
    ensures
        reserves_in_bounds(target, size, os),
{
}

/// The arena over nothing has no memory, nothing taken and nothing open.
pub proof fn law_arena_over_nothing_is_empty()
    ensures
        ArnaState::nothing().pos == 0,
        ArnaState::nothing().commited == 0,
        ArnaState::nothing().ptr == 0,
        ArnaState::nothing().cap == 0,
        ArnaState::nothing().depth == 0,
{
}

/// A fresh arena over a reservation, a slice or a box holds exactly that memory,
/// has nothing taken and no checkpoint open, and tells what it is over. Of a
/// reservation nothing is committed.
pub proof fn law_fresh_arena_has_nothing_taken(region: Region)
    ensures
        ({
            let s = ArnaState::over_reservation(region);
            &&& s.pos == 0 && s.depth == 0
            &&& s.ptr == region.addr && s.cap == region.len
            &&& s.commited == 0
            &&& s.mode() is Mmap
        }),
        ({
            let s = ArnaState::over_slice(region);
            &&& s.pos == 0 && s.depth == 0
            &&& s.ptr == region.addr && s.cap == region.len
            &&& s.mode() is Slice
        }),
        ({
            let s = ArnaState::over_box(region);
            &&& s.pos == 0 && s.depth == 0
            &&& s.ptr == region.addr && s.cap == region.len
            &&& s.mode() is Box
        }),
{
}

/// A fresh arena can hand out all of its memory in one block, which starts where
/// the memory starts: over a slice or a box always, over a reservation where the
/// system grants what it is asked for.
pub proof fn law_fresh_arena_hands_out_all_of_its_memory<F: FnOnce(OsCall) -> OsReply>(
    region: Region,
    s: ArnaState,
    e: Extent,
    target: Target,
    os: F,
    after: ArnaState,
    out: Result<usize, OOM>,
)
    requires
        s.wf(),
        s == ArnaState::over_slice(region) || s == ArnaState::over_box(region) || s
            == ArnaState::over_reservation(region) && region.addr != 0 && forall|
            call: OsCall,
            reply: OsReply,
        | #[trigger]
            call_ensures(os, (call,), reply) ==> if target is Windows {
                reply.value != 0
            } else {
                reply.value != usize::MAX
            },
        e.size == region.len,
        e.align == 1,
        e.valid(),
        s.allocates(e, target, os, after, out),
    ensures
        out == Ok::<usize, OOM>(region.addr),
        after.pos == region.len,
{
    assert(region.addr as nat % 1 == 0);
    law_block_that_fits_is_handed_out(s, e, target, os, after, out, region.addr as nat);
    law_block_handed_out_is_the_first_that_fits(
        s,
        e,
        target,
        os,
        after,
        out->Ok_0,
        region.addr as nat,
    );
}

/// What an arena is over shows in how many bytes count as committed: no more than
/// there are, one more, or two more.
pub proof fn law_backing_modes(s: ArnaState)
    requires
        s.wf(),
    ensures
        s.mode() is Mmap <==> s.commited <= s.cap,
        s.mode() is Slice <==> s.commited == s.cap + 1,
        s.mode() is Box <==> s.commited == s.cap + 2,
{
}

/// The memory of an arena is all of its bytes; what is committed of it are the
/// first ones.
pub proof fn law_memory_and_its_committed_start(s: ArnaState)
    requires
        s.wf(),
        s.commited <= usize::MAX,
    ensures
        s.memory().addr == s.ptr,
        s.memory().len == s.cap,
        s.committed_region().addr == s.ptr,
        s.committed_region().len == s.commited,
{
}

/// Clearing makes no call and succeeds where nothing is committed. Otherwise it
/// decommits exactly the bytes that are, from the start of the arena on, and
/// succeeds if that does.
pub proof fn law_clearing_decommits_what_is_committed<F: FnOnce(OsCall) -> OsReply>(
    s: ArnaState,
    target: Target,
    os: F,
    out: Result<(), i32>,
)
    requires
        s.wf(),
        s.commited <= s.cap,
        s.clear_outcome(target, os, out),
    ensures
        s.commited == 0 ==> out is Ok,
        s.commited != 0 ==> virtual_mem::decommit_answer(
            target,
            Region { addr: s.ptr as usize, len: s.commited as usize },
            os,
            out,
        ),
{
}

/// A cleared arena has nothing taken and nothing committed; its memory and its
/// checkpoints are untouched.
pub proof fn law_clearing_takes_everything_back(s: ArnaState)
    ensures
        s.cleared().pos == 0,
        s.cleared().commited == 0,
        s.cleared().ptr == s.ptr,
        s.cleared().cap == s.cap,
        s.cleared().depth == s.depth,
{
}

/// Taking a checkpoint counts it and changes nothing else. The checkpoint knows
/// the arena, what was taken, and its place among the open ones.
pub proof fn law_taking_a_checkpoint_only_counts_it(s: ArnaState)
    ensures
        s.opened().pos == s.pos,
        s.opened().commited == s.commited,
        s.opened().ptr == s.ptr,
        s.opened().cap == s.cap,
        s.opened().depth == s.depth + 1,
        s.checkpoint().ptr == s.ptr,
        s.checkpoint().cap == s.cap,
        s.checkpoint().prev_pos == s.pos,
        s.checkpoint().depth == s.depth + 1,
{
}

/// Dropping a checkpoint takes the position back to where it was when the
/// checkpoint was taken, counts one checkpoint less, and changes nothing else.
pub proof fn law_dropping_a_checkpoint_takes_the_position_back(s: ArnaState, c: CheckpointState)
    requires
        s.depth > 0,
    ensures
        s.closed(c).pos == c.prev_pos,
        s.closed(c).commited == s.commited,
        s.closed(c).ptr == s.ptr,
        s.closed(c).cap == s.cap,
        s.closed(c).depth == s.depth - 1,
{
}

/// A checkpoint is the innermost one of an arena exactly if it is of that memory
/// and as many are open as when it was taken.
pub proof fn law_innermost_checkpoint(s: ArnaState, c: CheckpointState)
    ensures
        c.innermost_of(s) <==> c.ptr == s.ptr && c.cap == s.cap && c.depth == s.depth,
{
}

} // verus!
