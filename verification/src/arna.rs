//! The arena and its checkpoints.
use crate::layout::{align_offset, round_up, Extent, Layout};
use crate::state::{ArnaState, BackingMode, CheckpointState, COMMIT_CHUNK, OOM, PAGE_SIZE};
use crate::sys::{OsCall, OsReply, Target};
use crate::virtual_mem;
use crate::virtual_mem::{Error, Region};
use vstd::prelude::*;
use vstd::std_specs::convert::FromSpecImpl;

verus! {

/// The place of a borrowed byte slice: `len` bytes from `addr` on.
#[derive(Clone, Copy, Debug, PartialEq, Eq, Structural)]
pub struct SliceMemory {
    region: Region,
}

/// The place of a boxed byte slice whose box was given up: `len` bytes from
/// `addr` on.
#[derive(Clone, Copy, Debug, PartialEq, Eq, Structural)]
pub struct BoxMemory {
    region: Region,
}

/// What holds of every slice in memory: it does not run past the end of the
/// address space, and it is no longer than `isize::MAX`.
pub open spec fn slice_place(region: Region) -> bool {
    region.addr + region.len <= usize::MAX && region.len <= isize::MAX
}

impl View for SliceMemory {
    type V = Region;

    closed spec fn view(&self) -> Region {
        self.region
    }
}

impl View for BoxMemory {
    type V = Region;

    closed spec fn view(&self) -> Region {
        self.region
    }
}

impl SliceMemory {
    #[verifier::type_invariant]
    spec fn inv(self) -> bool {
        slice_place(self.region)
    }

    /// The place `region`, if a slice can lie there.
    pub fn new(region: Region) -> (r: Option<SliceMemory>)
        ensures
            r is Some <==> slice_place(region),
            r matches Some(memory) ==> memory@ == region,
    {
        if region.len <= isize::MAX as usize && region.addr <= usize::MAX - region.len {
            Some(SliceMemory { region })
        } else {
            None
        }
    }
}

impl BoxMemory {
    #[verifier::type_invariant]
    spec fn inv(self) -> bool {
        slice_place(self.region)
    }

    /// The place `region`, if a slice can lie there.
    pub fn new(region: Region) -> (r: Option<BoxMemory>)
        ensures
            r is Some <==> slice_place(region),
            r matches Some(memory) ==> memory@ == region,
    {
        if region.len <= isize::MAX as usize && region.addr <= usize::MAX - region.len {
            Some(BoxMemory { region })
        } else {
            None
        }
    }
}

/// A bump allocator over one block of memory.
#[derive(Debug)]
pub struct Arna {
    pos: usize,
    commited: usize,
    ptr: usize,
    cap: usize,
    depth: usize,
}

impl View for Arna {
    type V = ArnaState;

    closed spec fn view(&self) -> ArnaState {
        ArnaState {
            pos: self.pos as nat,
            commited: self.commited as nat,
            ptr: self.ptr as nat,
            cap: self.cap as nat,
            depth: self.depth as nat,
        }
    }
}

impl Default for Arna {
    /// The arena over nothing.
    fn default() -> (r: Arna)
        ensures
            r@ == ArnaState::nothing(),
    {
        Arna { pos: 0, commited: 0, ptr: 0, cap: 0, depth: 0 }
    }
}

impl From<SliceMemory> for Arna {
    /// A fresh arena over a slice.
    fn from(value: SliceMemory) -> (r: Arna)
        ensures
            r@ == ArnaState::over_slice(value@),
    {
        proof {
            use_type_invariant(&value);
        }
        Arna {
            ptr: value.region.addr,
            cap: value.region.len,
            commited: value.region.len + 1,
            pos: 0,
            depth: 0,
        }
    }
}

impl FromSpecImpl<SliceMemory> for Arna {
    open spec fn obeys_from_spec() -> bool {
        true
    }

    closed spec fn from_spec(value: SliceMemory) -> Arna {
        Arna {
            ptr: value.region.addr,
            cap: value.region.len,
            commited: (value.region.len + 1) as usize,
            pos: 0,
            depth: 0,
        }
    }
}

impl From<BoxMemory> for Arna {
    /// A fresh arena over a boxed slice, which it owns from now on.
    fn from(value: BoxMemory) -> (r: Arna)
        ensures
            r@ == ArnaState::over_box(value@),
    {
        proof {
            use_type_invariant(&value);
        }
        Arna {
            ptr: value.region.addr,
            cap: value.region.len,
            commited: value.region.len + 2,
            pos: 0,
            depth: 0,
        }
    }
}

impl FromSpecImpl<BoxMemory> for Arna {
    open spec fn obeys_from_spec() -> bool {
        true
    }

    closed spec fn from_spec(value: BoxMemory) -> Arna {
        Arna {
            ptr: value.region.addr,
            cap: value.region.len,
            commited: (value.region.len + 2) as usize,
            pos: 0,
            depth: 0,
        }
    }
}

impl Arna {
    #[verifier::type_invariant]
    spec fn inv(self) -> bool {
        self@.wf()
    }

    /// Where the memory comes from.
    pub fn backing_mode(&self) -> (r: BackingMode)
        ensures
            r == self@.mode(),
            self@.wf(),
    {
        proof {
            use_type_invariant(self);
        }
        if self.commited <= self.cap {
            BackingMode::Mmap
        } else if self.commited - self.cap == 1 {
            BackingMode::Slice
        } else {
            BackingMode::Box
        }
    }

    /// All the memory of the arena.
    pub fn memory(&self) -> (r: Region)
        ensures
            r == self@.memory(),
            self@.wf(),
    {
        proof {
            use_type_invariant(self);
        }
        Region { addr: self.ptr, len: self.cap }
    }

    /// How many checkpoints are open.
    pub fn depth(&self) -> (r: usize)
        ensures
            r == self@.depth,
    {
        self.depth
    }

    /// A fresh arena over a region that has just been reserved.
    pub fn over_reservation(region: Region) -> (r: Arna)
        requires
            region.len % PAGE_SIZE == 0,
            region.addr + region.len <= usize::MAX,
        ensures
            r@ == ArnaState::over_reservation(region),
    {
        assert(usize::MAX == 0xffff_ffff || usize::MAX == 0xffff_ffff_ffff_ffff);
        assert(PAGE_SIZE == 0x1_0000);
        assert(region.len + 0xffff <= usize::MAX);
        assert(region.len as nat % PAGE_SIZE as nat == 0);
        Arna { ptr: region.addr, cap: region.len, commited: 0, pos: 0, depth: 0 }
    }

    /// The bytes to skip before a block of this layout.
    fn offset_to(&self, layout: Layout) -> (off: usize)
        ensures
            self@.start(layout@) == self@.pos + off,
    {
        let curr = self.ptr.wrapping_add(self.pos);
        align_offset(curr, layout.align())
    }

    /// Where in the arena a block of this layout would end, unless that cannot
    /// be told in a `usize`.
    pub fn end_of(&self, layout: Layout) -> (r: Option<usize>)
        ensures
            r is Some <==> self@.end(layout@) <= usize::MAX,
            r matches Some(end) ==> end == self@.end(layout@),
    {
        let off = self.offset_to(layout);
        match self.pos.checked_add(off) {
            Some(start) => start.checked_add(layout.size()),
            None => None,
        }
    }

    /// First half of an allocation: takes the bytes, and says where the block
    /// starts, counted from the start of the arena, and which region has to be
    /// committed before it can be handed out, if any.
    pub fn begin_alloc(&mut self, layout: Layout) -> (r: (usize, Option<Region>))
        requires
            old(self)@.end(layout@) <= usize::MAX,
        ensures
            final(self)@ == old(self)@.advanced(layout@),
            r.0 == old(self)@.start(layout@),
            r.1 == if old(self)@.needs_commit(layout@) {
                Some(old(self)@.commit_region(layout@))
            } else {
                None
            },
            r.1 matches Some(region) ==> final(self)@.may_count_as_committed(region),
    {
        proof {
            use_type_invariant(&*self);
        }
        let off = self.offset_to(layout);
        let start = self.pos + off;
        let end = start + layout.size();
        self.pos = end;
        if self.commited <= self.cap && end > self.commited {
            let chunk = if self.cap - self.commited < COMMIT_CHUNK {
                self.cap
            } else {
                self.commited + COMMIT_CHUNK
            };
            let to_reserve = if end > self.cap {
                self.cap
            } else if chunk < end {
                end
            } else {
                chunk
            };
            let past = to_reserve + (PAGE_SIZE - 1);
            let len = past & !(PAGE_SIZE - 1);
            proof {
                assert(past & !0xffffusize == past - past % 0x1_0000) by (bit_vector);
                assert(PAGE_SIZE == 0x1_0000);
                assert(len == round_up(to_reserve as nat, PAGE_SIZE as nat));
            }
            (start, Some(Region { addr: self.ptr, len }))
        } else {
            (start, None)
        }
    }

    /// Second half of an allocation of the block that starts at `start`: hands
    /// it out if memory suffices. `request` is the region that had to be
    /// committed, if any, and `committed` is how that came out, or `Ok` where
    /// there was none. A block that does not fit uses up what is left; after a
    /// failed commit the bytes stay taken.
    pub fn finish_alloc(
        &mut self,
        start: usize,
        request: Option<Region>,
        committed: Result<(), Error>,
    ) -> (r: Result<usize, OOM>)
        requires
            start <= old(self)@.pos,
            request matches Some(region) ==> old(self)@.may_count_as_committed(region),
        ensures
            committed is Err ==> r == Err::<usize, OOM>(OOM) && final(self)@ == old(self)@,
            committed is Ok ==> final(self)@ == (ArnaState {
                pos: if old(self)@.pos > old(self)@.cap {
                    old(self)@.cap
                } else {
                    old(self)@.pos
                },
                commited: match request {
                    Some(region) => region.len as nat,
                    None => old(self)@.commited,
                },
                ..old(self)@
            }),
            committed is Ok ==> r == if old(self)@.pos > old(self)@.cap {
                Err::<usize, OOM>(OOM)
            } else {
                Ok((old(self)@.ptr + start) as usize)
            },
    {
        proof {
            use_type_invariant(&*self);
        }
        match committed {
            Err(error) => Err(OOM::from(error)),
            Ok(()) => {
                if let Some(region) = request {
                    self.commited = region.len;
                }
                if self.pos > self.cap {
                    self.pos = self.cap;
                    Err(OOM)
                } else {
                    Ok(self.ptr + start)
                }
            },
        }
    }

    /// Allocates a block of memory and returns its address.
    pub fn alloc_raw<F: FnOnce(OsCall) -> OsReply>(
        &mut self,
        layout: Layout,
        target: Target,
        os: F,
    ) -> (r: Result<usize, OOM>)
        requires
            old(self)@.end(layout@) <= usize::MAX,
            old(self)@.can_commit(layout@, target, os),
        ensures
            old(self)@.allocates(layout@, target, os, final(self)@, r),
    {
        let (start, request) = self.begin_alloc(layout);
        let committed = match request {
            Some(region) => virtual_mem::commit(region, target, os),
            None => Ok(()),
        };
        assert(old(self)@.commit_outcome(layout@, target, os, committed is Ok)) by {
            if old(self)@.needs_commit(layout@) {
                assert(virtual_mem::commit_answer(
                    target,
                    old(self)@.commit_region(layout@),
                    os,
                    virtual_mem::seen(committed),
                ));
            }
        }
        self.finish_alloc(start, request, committed)
    }

    /// Allocates room for `len` values of type `T` and writes nothing to it.
    pub fn alloc_uninit<T, F: FnOnce(OsCall) -> OsReply>(
        &mut self,
        len: usize,
        target: Target,
        os: F,
    ) -> (r: Result<Slots, OOM>)
        requires
            Extent::array::<T>(len as nat).valid(),
            old(self)@.end(Extent::array::<T>(len as nat)) <= usize::MAX,
            old(self)@.can_commit(Extent::array::<T>(len as nat), target, os),
        ensures
            old(self)@.allocates(
                Extent::array::<T>(len as nat),
                target,
                os,
                final(self)@,
                place_of(r),
            ),
            r matches Ok(slots) ==> slots.len == len,
    {
        let layout = Layout::array::<T>(len).unwrap();
        match self.alloc_raw(layout, target, os) {
            Ok(addr) => Ok(Slots { addr, len }),
            Err(oom) => Err(oom),
        }
    }

    /// Allocates room for the values of `value` and has `write` put each of
    /// them in its place.
    pub fn alloc_copy<T: Copy, F: FnOnce(OsCall) -> OsReply, W: Fn(usize, T)>(
        &mut self,
        value: &[T],
        target: Target,
        os: F,
        write: W,
    ) -> (r: Result<Slots, OOM>)
        requires
            Extent::array::<T>(value@.len()).valid(),
            old(self)@.end(Extent::array::<T>(value@.len())) <= usize::MAX,
            old(self)@.can_commit(Extent::array::<T>(value@.len()), target, os),
            old(self)@.may_write(Extent::array::<T>(value@.len()), target, os) ==> forall|i: int|
                0 <= i < value@.len() ==> call_requires(
                    write,
                    (old(self)@.slot::<T>(value@.len(), i), #[trigger] value@[i]),
                ),
        ensures
            old(self)@.allocates(
                Extent::array::<T>(value@.len()),
                target,
                os,
                final(self)@,
                place_of(r),
            ),
            r matches Ok(slots) ==> slots.len == value@.len(),
            r is Ok ==> forall|i: int|
                0 <= i < value@.len() ==> call_ensures(
                    write,
                    (old(self)@.slot::<T>(value@.len(), i), #[trigger] value@[i]),
                    (),
                ),
    {
        let slots = match self.alloc_uninit::<T, F>(value.len(), target, os) {
            Ok(slots) => slots,
            Err(oom) => return Err(oom),
        };
        let ghost before = old(self)@;
        let ghost len = value@.len();
        let size: usize = core::mem::size_of::<T>();
        let mut at: usize = slots.addr;
        let mut i: usize = 0;
        proof {
            use_type_invariant(&*self);
        }
        while i < value.len()
            invariant
                i <= value.len(),
                len == value@.len(),
                size == vstd::layout::size_of::<T>(),
                slots.addr == before.ptr + before.start(Extent::array::<T>(len)),
                slots.addr + len * size <= usize::MAX,
                at == slots.addr + i * size,
                forall|j: int|
                    0 <= j < len ==> call_requires(
                        write,
                        (before.slot::<T>(len, j), #[trigger] value@[j]),
                    ),
                forall|j: int|
                    0 <= j < i ==> call_ensures(
                        write,
                        (before.slot::<T>(len, j), #[trigger] value@[j]),
                        (),
                    ),
            decreases value.len() - i,
        {
            assert((i + 1) * size == i * size + size && (i + 1) * size <= len * size)
                by (nonlinear_arith)
                requires
                    i + 1 <= len,
                    size >= 0,
            ;
            let item = value[i];
            assert(at == before.slot::<T>(len, i as int));
            write(at, item);
            at = at + size;
            i = i + 1;
        }
        Ok(slots)
    }

    /// Allocates room for `len` values of type `T` and has `write` put a
    /// default value in each place.
    pub fn alloc_default<T: Default, F: FnOnce(OsCall) -> OsReply, W: Fn(usize, T)>(
        &mut self,
        len: usize,
        target: Target,
        os: F,
        write: W,
    ) -> (r: Result<Slots, OOM>)
        requires
            Extent::array::<T>(len as nat).valid(),
            old(self)@.end(Extent::array::<T>(len as nat)) <= usize::MAX,
            old(self)@.can_commit(Extent::array::<T>(len as nat), target, os),
            old(self)@.may_write(Extent::array::<T>(len as nat), target, os) ==> call_requires(
                T::default,
                (),
            ),
            old(self)@.may_write(Extent::array::<T>(len as nat), target, os) ==> forall|
                i: int,
                v: T,
            |
                0 <= i < len && call_ensures(T::default, (), v) ==> #[trigger] call_requires(
                    write,
                    (old(self)@.slot::<T>(len as nat, i), v),
                ),
        ensures
            old(self)@.allocates(
                Extent::array::<T>(len as nat),
                target,
                os,
                final(self)@,
                place_of(r),
            ),
            r matches Ok(slots) ==> slots.len == len,
            r is Ok ==> forall|i: int|
                0 <= i < len ==> default_written(#[trigger] old(self)@.slot::<T>(len as nat, i), write),
    {
        let slots = match self.alloc_uninit::<T, F>(len, target, os) {
            Ok(slots) => slots,
            Err(oom) => return Err(oom),
        };
        proof {
            use_type_invariant(&*self);
            assert forall|i: int| #[trigger]
                slots.slot::<T>(i) == old(self)@.slot::<T>(len as nat, i) by {}
        }
        slots.fill_default(write);
        assert forall|i: int| 0 <= i < len implies default_written(
            #[trigger] old(self)@.slot::<T>(len as nat, i),
            write,
        ) by {
            assert(slots.slot::<T>(i) == old(self)@.slot::<T>(len as nat, i));
        }
        Ok(slots)
    }

    /// Reserves `cap` bytes of address space and makes an arena of them.
    pub fn new_virtual<F: FnOnce(OsCall) -> OsReply>(cap: usize, target: Target, os: F) -> (r: Result<
        Arna,
        Error,
    >)
        requires
            cap % PAGE_SIZE == 0,
            cap != 0 ==> call_requires(os, (virtual_mem::reserve_call(target, cap),)),
            cap != 0 ==> reserves_in_bounds(target, cap, os),
        ensures
            exists|out: Result<Region, i32>|
                {
                    &&& #[trigger] virtual_mem::reserve_answer(target, cap, os, out)
                    &&& match out {
                        Ok(region) => r matches Ok(arna) && arna@ == ArnaState::over_reservation(
                            region,
                        ),
                        Err(code) => r matches Err(error) && error@ == code,
                    }
                },
    {
        let mem = virtual_mem::reserve(cap, target, os);
        assert(virtual_mem::reserve_answer(target, cap, os, virtual_mem::seen(mem)));
        match mem {
            Ok(region) => Ok(Arna::over_reservation(region)),
            Err(error) => Err(error),
        }
    }

    /// Takes back everything that was handed out, and the committed memory with
    /// it. No checkpoint may be open. Where the memory cannot be taken back the
    /// books stay as they are; where there is none, the system is not asked.
    pub fn clear_and_decommit<F: Fn(OsCall) -> OsReply>(&mut self, target: Target, os: F) -> (r:
        Result<(), Error>)
        requires
            old(self)@.mode() is Mmap,
            old(self)@.depth == 0,
            virtual_mem::can_decommit(target, old(self)@.committed_region(), os),
        ensures
            old(self)@.clear_outcome(target, os, virtual_mem::seen(r)),
            final(self)@ == if r is Ok {
                old(self)@.cleared()
            } else {
                old(self)@
            },
    {
        proof {
            use_type_invariant(&*self);
        }
        if self.commited != 0 {
            let region = Region { addr: self.ptr, len: self.commited };
            match virtual_mem::decommit(region, target, os) {
                Ok(()) => {},
                Err(error) => return Err(error),
            }
        }
        self.commited = 0;
        self.pos = 0;
        Ok(())
    }

    /// Ends the arena, after all of its checkpoints. Reserved address space is
    /// released. A borrowed slice is left alone. A boxed slice is returned, for
    /// its box to be put together again and freed.
    pub fn drop<F: FnOnce(OsCall) -> OsReply>(self, target: Target, os: F) -> (r: Result<
        Option<Region>,
        Error,
    >)
        requires
            self@.depth == 0,
            self@.mode() is Mmap && self@.memory().names_memory() ==> call_requires(
                os,
                (virtual_mem::release_call(target, self@.memory()),),
            ),
        ensures
            match self@.mode() {
                BackingMode::Mmap => exists|out: Result<(), i32>|
                    {
                        &&& #[trigger] virtual_mem::release_answer(target, self@.memory(), os, out)
                        &&& match out {
                            Ok(()) => r == Ok::<Option<Region>, Error>(None),
                            Err(code) => r matches Err(error) && error@ == code,
                        }
                    },
                BackingMode::Slice => r == Ok::<Option<Region>, Error>(None),
                BackingMode::Box => r == Ok::<Option<Region>, Error>(Some(self@.memory())),
            },
    {
        let mem = self.memory();
        match self.backing_mode() {
            BackingMode::Mmap => {
                let released = virtual_mem::release(mem, target, os);
                assert(virtual_mem::release_answer(
                    target,
                    mem,
                    os,
                    virtual_mem::seen(released),
                ));
                match released {
                    Ok(()) => Ok(None),
                    Err(error) => Err(error),
                }
            },
            BackingMode::Slice => Ok(None),
            BackingMode::Box => Ok(Some(mem)),
        }
    }

    /// Takes the outermost checkpoint.
    pub fn checkpoit(&mut self) -> (r: Checkpoint)
        requires
            old(self)@.depth == 0,
        ensures
            r@ == old(self)@.checkpoint(),
            final(self)@ == old(self)@.opened(),
    {
        self.checkpoit_unchecked()
    }

    /// Takes a checkpoint, whether or not others are open.
    pub fn checkpoit_unchecked(&mut self) -> (r: Checkpoint)
        requires
            old(self)@.depth < usize::MAX,
        ensures
            r@ == old(self)@.checkpoint(),
            final(self)@ == old(self)@.opened(),
    {
        proof {
            use_type_invariant(&*self);
        }
        self.depth = self.depth + 1;
        Checkpoint { ptr: self.ptr, cap: self.cap, depth: self.depth, prev_pos: self.pos }
    }
}

/// Room for `len` values, the first of them at `addr`.
#[derive(Clone, Copy, Debug, PartialEq, Eq, Structural)]
pub struct Slots {
    pub addr: usize,
    pub len: usize,
}

impl Slots {
    /// The address of value number `i`, where the values are of type `T`.
    pub open spec fn slot<T>(self, i: int) -> usize {
        (self.addr + i * vstd::layout::size_of::<T>()) as usize
    }

    /// Has `write` put a default value of type `T` in each place.
    pub fn fill_default<T: Default, W: Fn(usize, T)>(&self, write: W)
        requires
            self.addr + self.len * vstd::layout::size_of::<T>() <= usize::MAX,
            call_requires(T::default, ()),
            forall|i: int, v: T|
                0 <= i < self.len && call_ensures(T::default, (), v) ==> #[trigger] call_requires(
                    write,
                    (self.slot::<T>(i), v),
                ),
        ensures
            forall|i: int|
                0 <= i < self.len ==> default_written(#[trigger] self.slot::<T>(i), write),
    {
        let size: usize = core::mem::size_of::<T>();
        let mut at: usize = self.addr;
        let mut i: usize = 0;
        while i < self.len
            invariant
                i <= self.len,
                size == vstd::layout::size_of::<T>(),
                self.addr + self.len * size <= usize::MAX,
                at == self.addr + i * size,
                call_requires(T::default, ()),
                forall|j: int, v: T|
                    0 <= j < self.len && call_ensures(T::default, (), v)
                        ==> #[trigger] call_requires(write, (self.slot::<T>(j), v)),
                forall|j: int|
                    0 <= j < i ==> default_written(#[trigger] self.slot::<T>(j), write),
            decreases self.len - i,
        {
            assert((i + 1) * size == i * size + size && (i + 1) * size <= self.len * size)
                by (nonlinear_arith)
                requires
                    i + 1 <= self.len,
                    size >= 0,
            ;
            let item = T::default();
            assert(at == self.slot::<T>(i as int));
            write(at, item);
            assert(default_written(self.slot::<T>(i as int), write));
            at = at + size;
            i = i + 1;
        }
    }
}

/// Where the room starts, if there is any.
pub open spec fn place_of(r: Result<Slots, OOM>) -> Result<usize, OOM> {
    match r {
        Ok(slots) => Ok(slots.addr),
        Err(oom) => Err(oom),
    }
}

/// `write` has put a default value of `T` at `addr`.
pub open spec fn default_written<T: Default, W: Fn(usize, T)>(addr: usize, write: W) -> bool {
    exists|v: T|
        call_ensures(T::default, (), v) && #[trigger] call_ensures(write, (addr, v), ())
}

/// Where `os` reserves `size` bytes, they do not run past the end of the
/// address space.
pub open spec fn reserves_in_bounds<F: FnOnce(OsCall) -> OsReply>(
    target: Target,
    size: usize,
    os: F,
) -> bool {
    forall|reply: OsReply| #[trigger]
        call_ensures(os, (virtual_mem::reserve_call(target, size),), reply) ==> (
        virtual_mem::reservation_of(target, size, reply) matches Ok(region) ==> region.addr
            + region.len <= usize::MAX)
}

/// A mark in an arena, to which the arena returns when the mark is dropped.
///
/// Checkpoints nest: only the innermost one may be used. The methods take the
/// arena that the checkpoint was taken in, which it knows by its memory.
#[derive(Debug)]
pub struct Checkpoint {
    ptr: usize,
    cap: usize,
    prev_pos: usize,
    depth: usize,
}

impl View for Checkpoint {
    type V = CheckpointState;

    closed spec fn view(&self) -> CheckpointState {
        CheckpointState {
            ptr: self.ptr as nat,
            cap: self.cap as nat,
            prev_pos: self.prev_pos as nat,
            depth: self.depth as nat,
        }
    }
}

impl Checkpoint {
    #[verifier::type_invariant]
    spec fn inv(self) -> bool {
        self.depth > 0
    }

    /// Whether this is a checkpoint of `arna`, and none that was taken later is
    /// still open there.
    pub fn is_innermost(&self, arna: &Arna) -> (r: bool)
        ensures
            r == self@.innermost_of(arna@),
    {
        self.ptr == arna.ptr && self.cap == arna.cap && self.depth == arna.depth
    }

    /// The arena, by way of its innermost checkpoint.
    pub fn deref<'b>(&self, arna: &'b Arna) -> (r: &'b Arna)
        requires
            self@.innermost_of(arna@),
        ensures
            r == arna,
    {
        arna
    }

    /// Takes a checkpoint inside of the innermost one.
    pub fn checkpoit(&self, arna: &mut Arna) -> (r: Checkpoint)
        requires
            self@.innermost_of(old(arna)@),
            old(arna)@.depth < usize::MAX,
        ensures
            r@ == old(arna)@.checkpoint(),
            final(arna)@ == old(arna)@.opened(),
    {
        arna.checkpoit_unchecked()
    }

    /// Drops the innermost checkpoint: what was handed out since it was taken
    /// is free again.
    pub fn drop(self, arna: &mut Arna)
        requires
            self@.innermost_of(old(arna)@),
        ensures
            final(arna)@ == old(arna)@.closed(self@),
    {
        proof {
            use_type_invariant(&self);
            use_type_invariant(&*arna);
        }
        arna.pos = self.prev_pos;
        arna.depth = arna.depth - 1;
    }
}

} // verus!
