//! What holds of an arena over a whole life of allocations, checkpoints
//! and clearings.
use crate::layout::{padding, round_up, Extent};
use crate::state::{ArnaState, CheckpointState, COMMIT_CHUNK, OOM, PAGE_SIZE};
use crate::sys::{OsCall, OsReply, Target};
use crate::virtual_mem;
use crate::virtual_mem::Region;
use vstd::prelude::*;

verus! {

/// One thing that happens to an arena.
pub enum Event {
    /// A block is asked for. `committed` tells that no commit was needed or
    /// that it succeeded.
    Alloc { extent: Extent, committed: bool },
    /// A checkpoint is taken.
    Open,
    /// The innermost checkpoint is dropped.
    Close,
    /// Everything is to be taken back. `cleared` tells that nothing was
    /// committed or that it could be decommitted.
    Clear { cleared: bool },
}

/// An arena and its open checkpoints, the innermost last.
#[verifier::ext_equal]
pub struct History {
    pub arna: ArnaState,
    pub open: Seq<CheckpointState>,
}

impl History {
    /// Every open checkpoint knows the memory of the arena, and how many
    /// checkpoints were open when it was taken, itself among them.
    pub open spec fn wf(self) -> bool {
        &&& self.arna.wf()
        &&& forall|i: int|
            0 <= i < self.open.len() ==> (#[trigger] self.open[i]).prev_pos <= usize::MAX
                && self.open[i].ptr == self.arna.ptr && self.open[i].cap == self.arna.cap
                && self.open[i].depth + (self.open.len() - 1 - i) == self.arna.depth
        &&& self.arna.depth >= self.open.len()
    }

    /// Whether `event` can happen now.
    pub open spec fn allows(self, event: Event) -> bool {
        match event {
            Event::Alloc { extent, committed } => {
                &&& extent.valid()
                &&& self.arna.end(extent) <= usize::MAX
                &&& !committed ==> self.arna.needs_commit(extent)
            },
            Event::Open => self.arna.depth < usize::MAX,
            Event::Close => self.open.len() > 0,
            Event::Clear { cleared } => {
                &&& self.arna.mode() is Mmap
                &&& self.arna.depth == 0
                &&& !cleared ==> self.arna.commited > 0
            },
        }
    }

    pub open spec fn step(self, event: Event) -> History {
        match event {
            Event::Alloc { extent, committed } => History {
                arna: self.arna.after_alloc(extent, committed),
                ..self
            },
            Event::Open => History {
                arna: self.arna.opened(),
                open: self.open.push(self.arna.checkpoint()),
            },
            Event::Close => History {
                arna: self.arna.closed(self.open.last()),
                open: self.open.drop_last(),
            },
            Event::Clear { cleared } => if cleared {
                History { arna: self.arna.cleared(), ..self }
            } else {
                self
            },
        }
    }

    /// What becomes of the arena when `events` happen one after the other.
    pub open spec fn run(self, events: Seq<Event>) -> History
        decreases events.len(),
    {
        if events.len() == 0 {
            self
        } else {
            self.run(events.drop_last()).step(events.last())
        }
    }

    /// Whether each of `events` can happen when its turn comes.
    pub open spec fn allows_all(self, events: Seq<Event>) -> bool
        decreases events.len(),
    {
        events.len() == 0 || {
            &&& self.allows_all(events.drop_last())
            &&& self.run(events.drop_last()).allows(events.last())
        }
    }

    /// Whether the outermost `n` of the open checkpoints stay open throughout.
    pub open spec fn keeps_open(self, events: Seq<Event>, n: nat) -> bool
        decreases events.len(),
    {
        &&& self.run(events).open.len() >= n
        &&& events.len() == 0 || self.keeps_open(events.drop_last(), n)
    }
}

/// Whether every commit in `events` succeeded, where one was needed.
pub open spec fn no_commit_failed(events: Seq<Event>) -> bool {
    forall|i: int|
        0 <= i < events.len() ==> ((#[trigger] events[i]) matches Event::Alloc { committed, .. }
            ==> committed)
}

/// Whether nothing is taken back in `events` but by dropping checkpoints.
pub open spec fn never_cleared(events: Seq<Event>) -> bool {
    forall|i: int|
        0 <= i < events.len() ==> ((#[trigger] events[i]) matches Event::Clear { cleared }
            ==> !cleared)
}

proof fn lemma_never_cleared_before(events: Seq<Event>)
    requires
        never_cleared(events),
        events.len() > 0,
    ensures
        never_cleared(events.drop_last()),
        events.last() matches Event::Clear { cleared } ==> !cleared,
{
    let rest = events.drop_last();
    assert forall|i: int| 0 <= i < rest.len() implies ((
    #[trigger] rest[i]) matches Event::Clear { cleared } ==> !cleared) by {
        assert(rest[i] == events[i]);
    }
    assert(events.last() == events[events.len() - 1]);
}

/// A block that is handed out lies at a multiple of its alignment, inside of the
/// arena and after everything that was taken before. The gap in front of it is
/// smaller than its alignment, and the taken bytes end where the block ends.
pub proof fn law_block_lies_in_free_memory(s: ArnaState, e: Extent, committed: bool)
    requires
        s.wf(),
        e.valid(),
        s.placed(e, committed) is Ok,
    ensures
        ({
            let addr = s.placed(e, committed)->Ok_0;
            &&& addr as nat % e.align == 0
            &&& s.ptr + s.pos <= addr < s.ptr + s.pos + e.align
            &&& addr + e.size == s.ptr + s.after_alloc(e, committed).pos
            &&& addr + e.size <= s.ptr + s.cap
        }),
{
    reveal(vstd::arithmetic::power2::is_pow2);
    assert(s.cursor() == s.ptr + s.pos);
    lemma_padding(s.cursor(), e.align);
}

proof fn lemma_padding(addr: nat, align: nat)
    requires
        align > 0,
    ensures
        padding(addr, align) < align,
        (addr + padding(addr, align)) % align == 0,
{
    if addr % align != 0 {
        vstd::arithmetic::div_mod::lemma_fundamental_div_mod(addr as int, align as int);
        let q = addr as int / align as int;
        assert(addr + padding(addr, align) == (q + 1) * align) by (nonlinear_arith)
            requires
                addr == align * q + addr as int % align as int,
                padding(addr, align) == align - addr as int % align as int,
        ;
        vstd::arithmetic::div_mod::lemma_mod_multiples_basic(q + 1, align as int);
    }
}

/// The values of an array that is handed out lie one after the other in its
/// block, each at a multiple of its alignment.
pub proof fn law_slots_do_not_overlap<T>(s: ArnaState, len: nat, committed: bool, i: int, j: int)
    requires
        s.wf(),
        Extent::array::<T>(len).valid(),
        s.placed(Extent::array::<T>(len), committed) is Ok,
        0 <= i < j < len,
    ensures
        ({
            let addr = s.placed(Extent::array::<T>(len), committed)->Ok_0;
            let size = vstd::layout::size_of::<T>();
            &&& s.slot::<T>(len, 0) == addr
            &&& s.slot::<T>(len, i) + size <= s.slot::<T>(len, j)
            &&& s.slot::<T>(len, j) + size <= addr + len * size
            &&& s.slot::<T>(len, i) as nat % vstd::layout::align_of::<T>() == 0
            &&& s.slot::<T>(len, j) as nat % vstd::layout::align_of::<T>() == 0
        }),
{
    let size = vstd::layout::size_of::<T>();
    law_block_lies_in_free_memory(s, Extent::array::<T>(len), committed);
    assert(i * size + size <= j * size && j * size + size <= len * size && 0 <= i * size)
        by (nonlinear_arith)
        requires
            0 <= i,
            i + 1 <= j,
            j + 1 <= len,
            size >= 0,
    ;
    reveal(vstd::arithmetic::power2::is_pow2);
    let addr = s.placed(Extent::array::<T>(len), committed)->Ok_0;
    lemma_slot_aligned(addr as int, i, size as int, vstd::layout::align_of::<T>() as int);
    lemma_slot_aligned(addr as int, j, size as int, vstd::layout::align_of::<T>() as int);
}

proof fn lemma_slot_aligned(addr: int, i: int, size: int, align: int)
    requires
        align > 0,
        addr % align == 0,
        size % align == 0,
    ensures
        (addr + i * size) % align == 0,
{
    vstd::arithmetic::div_mod::lemma_fundamental_div_mod(addr, align);
    vstd::arithmetic::div_mod::lemma_fundamental_div_mod(size, align);
    let a = addr / align;
    let b = size / align;
    assert(addr + i * size == (a + i * b) * align) by (nonlinear_arith)
        requires
            addr == align * a,
            size == align * b,
    ;
    vstd::arithmetic::div_mod::lemma_mod_multiples_basic(a + i * b, align);
}

/// Of two blocks that are both in use, the later one lies behind the earlier
/// one. A block is in use as long as the checkpoints stay open that were open
/// when it was handed out and the arena is not cleared.
pub proof fn law_blocks_in_use_are_disjoint(
    h: History,
    first: Extent,
    committed: bool,
    events: Seq<Event>,
    second: Extent,
    committed_again: bool,
)
    requires
        h.wf(),
        h.allows(Event::Alloc { extent: first, committed }),
        h.arna.placed(first, committed) is Ok,
        h.step(Event::Alloc { extent: first, committed }).allows_all(events),
        h.step(Event::Alloc { extent: first, committed }).keeps_open(events, h.open.len()),
        never_cleared(events),
        second.valid(),
        h.step(Event::Alloc { extent: first, committed }).run(events).arna.placed(
            second,
            committed_again,
        ) is Ok,
    ensures
        h.arna.placed(first, committed)->Ok_0 + first.size <= h.step(
            Event::Alloc { extent: first, committed },
        ).run(events).arna.placed(second, committed_again)->Ok_0,
{
    let after = h.step(Event::Alloc { extent: first, committed });
    law_block_lies_in_free_memory(h.arna, first, committed);
    lemma_step_keeps_backing(h, Event::Alloc { extent: first, committed });
    law_run_keeps_backing(after, events);
    lemma_floor(after, events, h.open.len(), after.arna.pos);
    law_block_lies_in_free_memory(after.run(events).arna, second, committed_again);
}

/// Nothing that happens while the outermost `n` checkpoints stay open takes the
/// position below `floor`, if it was at `floor` or above when they were open
/// alone.
proof fn lemma_floor(h: History, events: Seq<Event>, n: nat, floor: nat)
    requires
        h.wf(),
        h.allows_all(events),
        h.keeps_open(events, n),
        never_cleared(events),
        h.open.len() == n,
        h.arna.pos >= floor,
        floor <= h.arna.cap,
    ensures
        h.run(events).arna.pos >= floor,
        forall|i: int|
            n <= i < h.run(events).open.len() ==> (#[trigger] h.run(events).open[i]).prev_pos
                >= floor,
    decreases events.len(),
{
    if events.len() > 0 {
        let rest = events.drop_last();
        lemma_never_cleared_before(events);
        lemma_floor(h, rest, n, floor);
        law_run_keeps_backing(h, rest);
    }
}

/// Whatever happens, the arena stays well-formed and keeps its memory and its
/// backing. Each open checkpoint keeps its place in the order.
pub proof fn law_run_keeps_backing(h: History, events: Seq<Event>)
    requires
        h.wf(),
        h.allows_all(events),
    ensures
        h.run(events).wf(),
        h.run(events).arna.ptr == h.arna.ptr,
        h.run(events).arna.cap == h.arna.cap,
        h.run(events).arna.mode() == h.arna.mode(),
    decreases events.len(),
{
    if events.len() > 0 {
        law_run_keeps_backing(h, events.drop_last());
        lemma_step_keeps_backing(h.run(events.drop_last()), events.last());
    }
}

proof fn lemma_step_keeps_backing(h: History, event: Event)
    requires
        h.wf(),
        h.allows(event),
    ensures
        h.step(event).wf(),
        h.step(event).arna.ptr == h.arna.ptr,
        h.step(event).arna.cap == h.arna.cap,
        h.step(event).arna.mode() == h.arna.mode(),
{
    let after = h.step(event);
    match event {
        Event::Alloc { extent, committed } => {
            if h.arna.needs_commit(extent) {
                law_commit_reaches_the_block(h.arna, extent);
            }
        },
        Event::Close => {
            assert(h.open.last() == h.open[h.open.len() - 1]);
        },
        _ => {},
    }
    assert forall|i: int| 0 <= i < after.open.len() implies (#[trigger] after.open[i]).prev_pos
        <= usize::MAX && after.open[i].ptr == after.arna.ptr && after.open[i].cap == after.arna.cap
        && after.open[i].depth + (after.open.len() - 1 - i) == after.arna.depth by {
        if i < h.open.len() {
            assert(h.open[i] == after.open[i]);
        }
    }
}

/// What is to be committed before a block of an arena over reserved memory is
/// handed out starts with the arena, consists of whole pages of it, takes in all
/// that was committed before, and reaches the end of the block if that lies in
/// the arena.
pub proof fn law_commit_reaches_the_block(s: ArnaState, e: Extent)
    requires
        s.wf(),
        s.mode() is Mmap,
    ensures
        s.commit_region(e).addr == s.ptr,
        s.commit_region(e).len as nat % PAGE_SIZE as nat == 0,
        s.commited <= s.commit_region(e).len <= s.cap,
        s.end(e) <= s.cap ==> s.end(e) <= s.commit_region(e).len,
{
    let wanted = vstd::math::min(
        s.cap as int,
        vstd::math::max(s.commited + COMMIT_CHUNK, s.end(e) as int),
    );
    assert(PAGE_SIZE == 0x1_0000);
    assert(round_up(wanted as nat, PAGE_SIZE as nat) <= s.cap);
}

/// A block of an arena over reserved memory is committed when it is handed out.
pub proof fn law_block_is_committed(s: ArnaState, e: Extent, committed: bool)
    requires
        s.wf(),
        s.mode() is Mmap,
        s.placed(e, committed) is Ok,
    ensures
        s.end(e) <= s.after_alloc(e, committed).commited <= s.cap,
{
    law_commit_reaches_the_block(s, e);
}

/// A block of an arena over reserved memory stays committed until the arena is
/// cleared, whatever else happens.
pub proof fn law_block_stays_committed(h: History, e: Extent, committed: bool, events: Seq<Event>)
    requires
        h.wf(),
        h.arna.mode() is Mmap,
        h.allows(Event::Alloc { extent: e, committed }),
        h.arna.placed(e, committed) is Ok,
        h.step(Event::Alloc { extent: e, committed }).allows_all(events),
        never_cleared(events),
    ensures
        h.arna.end(e) <= h.step(Event::Alloc { extent: e, committed }).run(events).arna.commited,
{
    law_block_is_committed(h.arna, e, committed);
    lemma_step_keeps_backing(h, Event::Alloc { extent: e, committed });
    law_committed_memory_grows(h.step(Event::Alloc { extent: e, committed }), events);
}

/// Until the arena is cleared, what is committed stays committed.
pub proof fn law_committed_memory_grows(h: History, events: Seq<Event>)
    requires
        h.wf(),
        h.allows_all(events),
        never_cleared(events),
    ensures
        h.arna.commited <= h.run(events).arna.commited,
    decreases events.len(),
{
    if events.len() > 0 {
        lemma_never_cleared_before(events);
        law_committed_memory_grows(h, events.drop_last());
        law_run_keeps_backing(h, events.drop_last());
        let before = h.run(events.drop_last());
        if let Event::Alloc { extent, committed } = events.last() {
            if before.arna.needs_commit(extent) {
                law_commit_reaches_the_block(before.arna, extent);
            }
        }
    }
}

/// Dropping a checkpoint undoes everything since it was taken: whatever was
/// handed out and however many checkpoints came and went inside of it, the
/// arena and the remaining checkpoints are as they were before. Only what has
/// been committed in the meantime stays committed.
pub proof fn law_checkpoint_restores(h: History, events: Seq<Event>)
    requires
        h.wf(),
        h.allows(Event::Open),
        h.step(Event::Open).allows_all(events),
        h.step(Event::Open).keeps_open(events, h.open.len() + 1),
        h.step(Event::Open).run(events).open.len() == h.open.len() + 1,
    ensures
        ({
            let last = h.step(Event::Open).run(events);
            &&& last.open.last().innermost_of(last.arna)
            &&& last.step(Event::Close) == (History {
                arna: ArnaState { commited: last.arna.commited, ..h.arna },
                ..h
            })
            &&& h.arna.commited <= last.arna.commited
        }),
{
    let opened = h.step(Event::Open);
    let last = opened.run(events);
    lemma_step_keeps_backing(h, Event::Open);
    law_run_keeps_backing(opened, events);
    lemma_no_clearing_inside(opened, events, h.open.len() + 1);
    law_committed_memory_grows(opened, events);
    lemma_outer_checkpoints_stay(opened, events, h.open.len() + 1);
    assert(last.open.last() == last.open[h.open.len() as int]);
    assert(last.open[h.open.len() as int] == opened.open[h.open.len() as int]);
    assert(last.open.drop_last() =~= h.open) by {
        assert forall|i: int| 0 <= i < h.open.len() implies last.open[i] == h.open[i] by {
            assert(last.open[i] == opened.open[i]);
        }
    }
}

/// While a checkpoint is open, the arena is not cleared.
proof fn lemma_no_clearing_inside(h: History, events: Seq<Event>, n: nat)
    requires
        h.wf(),
        n > 0,
        h.allows_all(events),
        h.keeps_open(events, n),
    ensures
        never_cleared(events),
    decreases events.len(),
{
    if events.len() > 0 {
        let rest = events.drop_last();
        assert(h.keeps_open(rest, n));
        lemma_no_clearing_inside(h, rest, n);
        law_run_keeps_backing(h, rest);
        assert forall|i: int| 0 <= i < events.len() implies ((
        #[trigger] events[i]) matches Event::Clear { cleared } ==> !cleared) by {
            if i < rest.len() {
                assert(rest[i] == events[i]);
            } else {
                assert(h.run(rest).open.len() >= n);
            }
        }
    }
}

proof fn lemma_outer_checkpoints_stay(h: History, events: Seq<Event>, n: nat)
    requires
        h.keeps_open(events, n),
    ensures
        forall|i: int| 0 <= i < n ==> #[trigger] h.run(events).open[i] == h.open[i],
    decreases events.len(),
{
    if events.len() > 0 {
        lemma_outer_checkpoints_stay(h, events.drop_last(), n);
        let before = h.run(events.drop_last());
        assert(h.keeps_open(events.drop_last(), n));
        assert forall|i: int| 0 <= i < n implies #[trigger] h.run(events).open[i] == h.open[i] by {
            assert(h.run(events).open[i] == before.open[i]);
        }
    }
}

/// Of the open checkpoints, only the innermost one matches the arena: every other
/// one is recognised as not being the innermost.
pub proof fn law_only_innermost_checkpoint_matches(h: History, i: int)
    requires
        h.wf(),
        0 <= i < h.open.len(),
    ensures
        h.open[i].innermost_of(h.arna) <==> i == h.open.len() - 1,
{
}

/// No checkpoint is open when an arena is cleared, so memory behind an open
/// checkpoint is never decommitted.
pub proof fn law_no_checkpoint_is_open_at_a_clearing(
    h: History,
    events: Seq<Event>,
    cleared: bool,
)
    requires
        h.wf(),
        h.allows_all(events),
        h.run(events).allows(Event::Clear { cleared }),
    ensures
        h.run(events).open.len() == 0,
{
    law_run_keeps_backing(h, events);
}

/// The depth of an arena is the number of its open checkpoints, so an arena can
/// end exactly when all of them have been dropped.
pub proof fn law_depth_counts_open_checkpoints(h: History, events: Seq<Event>)
    requires
        h.wf(),
        h.arna.depth == h.open.len(),
        h.allows_all(events),
    ensures
        h.run(events).arna.depth == h.run(events).open.len(),
    decreases events.len(),
{
    if events.len() > 0 {
        law_depth_counts_open_checkpoints(h, events.drop_last());
    }
}

/// As long as no commit fails, the taken bytes stay within the arena. Over a
/// slice or a box nothing is ever committed, so they always do.
pub proof fn law_position_stays_within_capacity(h: History, events: Seq<Event>)
    requires
        h.wf(),
        h.arna.pos <= h.arna.cap,
        forall|i: int| 0 <= i < h.open.len() ==> (#[trigger] h.open[i]).prev_pos <= h.arna.cap,
        h.allows_all(events),
        h.arna.mode() is Mmap ==> no_commit_failed(events),
    ensures
        h.run(events).arna.pos <= h.arna.cap,
        forall|i: int|
            0 <= i < h.run(events).open.len() ==> (#[trigger] h.run(events).open[i]).prev_pos
                <= h.arna.cap,
    decreases events.len(),
{
    if events.len() > 0 {
        let rest = events.drop_last();
        assert(no_commit_failed(events) ==> no_commit_failed(rest)) by {
            assert forall|i: int| 0 <= i < rest.len() && no_commit_failed(events) implies ((
            #[trigger] rest[i]) matches Event::Alloc { committed, .. } ==> committed) by {
                assert(rest[i] == events[i]);
            }
        }
        assert(events.last() == events[events.len() - 1]);
        law_position_stays_within_capacity(h, rest);
        law_run_keeps_backing(h, rest);
    }
}

/// Where the taken bytes lie within an arena no longer than `isize::MAX`, every
/// request can be reckoned with.
pub proof fn law_requests_can_be_reckoned(s: ArnaState, e: Extent)
    requires
        s.wf(),
        s.pos <= s.cap <= isize::MAX,
        e.valid(),
    ensures
        s.end(e) <= usize::MAX,
{
    reveal(vstd::arithmetic::power2::is_pow2);
    lemma_padding(s.cursor(), e.align);
    assert(usize::MAX == 2 * isize::MAX + 1) by {
        assert(usize::MAX == 0xffff_ffff || usize::MAX == 0xffff_ffff_ffff_ffff);
    }
}

/// A block that does not fit uses up the arena: afterwards nothing but empty
/// blocks can be handed out, until a checkpoint is dropped.
pub proof fn law_exhausted_arena_stays_exhausted(
    s: ArnaState,
    e: Extent,
    committed: bool,
    next: Extent,
    committed_again: bool,
)
    requires
        s.wf(),
        s.end(e) > s.cap,
        next.size > 0,
    ensures
        s.placed(e, committed) == Err::<usize, OOM>(OOM),
        s.after_alloc(e, committed).pos >= s.cap,
        s.after_alloc(e, committed).placed(next, committed_again) == Err::<usize, OOM>(OOM),
{
}

/// An arena over a slice or a box hands a block out exactly if it fits, and is
/// used up if it does not. The operating system is not asked.
pub proof fn law_slice_and_box_do_not_depend_on_the_system<F: FnOnce(OsCall) -> OsReply>(
    s: ArnaState,
    e: Extent,
    target: Target,
    os: F,
    after: ArnaState,
    out: Result<usize, OOM>,
)
    requires
        s.wf(),
        !(s.mode() is Mmap),
        s.allocates(e, target, os, after, out),
    ensures
        !s.needs_commit(e),
        out is Ok <==> s.end(e) <= s.cap,
        s.end(e) > s.cap ==> after == (ArnaState { pos: s.cap, ..s }),
        s.end(e) <= s.cap ==> out == Ok::<usize, OOM>((s.ptr + s.start(e)) as usize) && after
            == s.advanced(e),
{
}

/// The memory that an arena was made over is the memory that it gives up in the
/// end, in the way that suits where it came from.
pub proof fn law_memory_given_is_memory_returned(
    region: Region,
    s: ArnaState,
    open: Seq<CheckpointState>,
    events: Seq<Event>,
)
    requires
        s.wf(),
        open.len() == 0,
        s == ArnaState::over_reservation(region) || s == ArnaState::over_slice(region) || s
            == ArnaState::over_box(region),
        (History { arna: s, open }).allows_all(events),
    ensures
        (History { arna: s, open }).run(events).arna.memory() == region,
        s == ArnaState::over_reservation(region) ==> (History { arna: s, open }).run(
            events,
        ).arna.mode() is Mmap,
        s == ArnaState::over_slice(region) ==> (History { arna: s, open }).run(events).arna.mode()
            is Slice,
        s == ArnaState::over_box(region) ==> (History { arna: s, open }).run(events).arna.mode()
            is Box,
{
    law_run_keeps_backing(History { arna: s, open }, events);
}

/// Clearing an arena over reserved memory does not fail as long as the system
/// grants what it is asked for.
pub proof fn law_clearing_succeeds_where_granted<F: FnOnce(OsCall) -> OsReply>(
    s: ArnaState,
    target: Target,
    os: F,
    out: Result<(), i32>,
)
    requires
        s.wf(),
        s.mode() is Mmap,
        s.ptr != 0,
        forall|call: OsCall, reply: OsReply| #[trigger]
            call_ensures(os, (call,), reply) ==> virtual_mem::status_of(target, reply) is Ok,
        s.clear_outcome(target, os, out),
    ensures
        out is Ok,
{
}

/// Releasing the memory of an arena over reserved memory does not fail as long as
/// the system grants what it is asked for.
pub proof fn law_release_succeeds_where_granted<F: FnOnce(OsCall) -> OsReply>(
    s: ArnaState,
    target: Target,
    os: F,
    out: Result<(), i32>,
)
    requires
        s.wf(),
        s.mode() is Mmap,
        s.ptr != 0,
        s.cap != 0,
        forall|call: OsCall, reply: OsReply| #[trigger]
            call_ensures(os, (call,), reply) ==> virtual_mem::status_of(target, reply) is Ok,
        virtual_mem::release_answer(target, s.memory(), os, out),
    ensures
        out is Ok,
{
}

/// An arena that has been cleared is like one that has just been made over the
/// same memory: it hands out the same addresses again.
pub proof fn law_cleared_arena_is_fresh(s: ArnaState)
    requires
        s.wf(),
        s.mode() is Mmap,
        s.depth == 0,
    ensures
        s.cleared() == ArnaState::over_reservation(s.memory()),
        s.cleared().wf(),
        s.cleared().mode() is Mmap,
{
}

/// Whatever an arena over reserved memory went through, clearing it takes it back
/// to where it began.
pub proof fn law_clearing_leads_back_to_the_start(
    region: Region,
    open: Seq<CheckpointState>,
    events: Seq<Event>,
)
    requires
        ArnaState::over_reservation(region).wf(),
        open.len() == 0,
        (History { arna: ArnaState::over_reservation(region), open }).allows_all(events),
        (History { arna: ArnaState::over_reservation(region), open }).run(events).allows(
            Event::Clear { cleared: true },
        ),
    ensures
        (History { arna: ArnaState::over_reservation(region), open }).run(events).step(
            Event::Clear { cleared: true },
        ) == (History { arna: ArnaState::over_reservation(region), open }),
{
    let start = History { arna: ArnaState::over_reservation(region), open };
    law_run_keeps_backing(start, events);
    law_no_checkpoint_is_open_at_a_clearing(start, events, true);
    assert(start.run(events).open =~= open);
}

/// A reservation that is granted has the length that was asked for, which is not
/// zero. It can be committed, decommitted and released, unless the system put it
/// at null, which Windows does not report as granted.
pub proof fn law_granted_reservation_names_memory<F: FnOnce(OsCall) -> OsReply>(
    target: Target,
    size: usize,
    os: F,
    region: Region,
)
    requires
        virtual_mem::reserve_answer(target, size, os, Ok(region)),
    ensures
        size != 0,
        region.len == size,
        region.names_memory() <==> region.addr != 0,
        target is Windows ==> region.names_memory(),
{
}

} // verus!
