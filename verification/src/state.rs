//! What an arena is, without regard to how it is held.
use crate::layout::{padding, round_up, Extent};
use crate::sys::{OsCall, OsReply, Target};
use crate::virtual_mem;
use crate::virtual_mem::{Error, Region};
use vstd::prelude::*;
use vstd::std_specs::convert::FromSpecImpl;

verus! {

/// How much an arena over virtual memory asks for at a time, at least.
pub const COMMIT_CHUNK: usize = 1024 * 1024;

/// The unit in which virtual memory is reserved for an arena.
pub const PAGE_SIZE: usize = 64 * 1024;

/// Where the memory of an arena comes from.
#[derive(Clone, Copy, Debug, PartialEq, Eq, Structural)]
pub enum BackingMode {
    /// Address space that was reserved for the arena.
    Mmap,
    /// A slice that the arena borrows.
    Slice,
    /// A boxed slice that the arena owns.
    Box,
}

/// Memory ran out.
#[derive(Clone, Copy, Debug, PartialEq, Eq, Structural)]
pub struct OOM;

impl From<Error> for OOM {
    fn from(error: Error) -> (r: OOM) {
        OOM
    }
}

impl FromSpecImpl<Error> for OOM {
    open spec fn obeys_from_spec() -> bool {
        true
    }

    open spec fn from_spec(error: Error) -> OOM {
        OOM
    }
}

/// The books of an arena.
#[verifier::ext_equal]
pub struct ArnaState {
    /// How many bytes, counted from the start, are taken.
    pub pos: nat,
    /// For an arena over virtual memory, how many bytes, counted from the
    /// start, are known to be committed. For the other two modes it exceeds
    /// `cap` and so tells which mode it is.
    pub commited: nat,
    /// The address of the first byte.
    pub ptr: nat,
    /// How many bytes there are.
    pub cap: nat,
    /// How many checkpoints are open.
    pub depth: nat,
}

impl ArnaState {
    /// What holds of every arena.
    pub open spec fn wf(self) -> bool {
        &&& self.pos <= usize::MAX
        &&& self.depth <= usize::MAX
        &&& self.ptr + self.cap <= usize::MAX
        &&& self.cap + PAGE_SIZE - 1 <= usize::MAX
        &&& self.commited <= self.cap + 2
        &&& self.mode() is Mmap ==> self.cap % (PAGE_SIZE as nat) == 0
    }

    /// The arena over nothing.
    pub open spec fn nothing() -> ArnaState {
        ArnaState { pos: 0, commited: 0, ptr: 0, cap: 0, depth: 0 }
    }

    /// A fresh arena over a region that has just been reserved.
    pub open spec fn over_reservation(region: Region) -> ArnaState {
        ArnaState {
            pos: 0,
            commited: 0,
            ptr: region.addr as nat,
            cap: region.len as nat,
            depth: 0,
        }
    }

    /// A fresh arena over a slice.
    pub open spec fn over_slice(region: Region) -> ArnaState {
        ArnaState {
            pos: 0,
            commited: region.len as nat + 1,
            ptr: region.addr as nat,
            cap: region.len as nat,
            depth: 0,
        }
    }

    /// A fresh arena over a boxed slice.
    pub open spec fn over_box(region: Region) -> ArnaState {
        ArnaState {
            pos: 0,
            commited: region.len as nat + 2,
            ptr: region.addr as nat,
            cap: region.len as nat,
            depth: 0,
        }
    }

    pub open spec fn mode(self) -> BackingMode {
        if self.commited <= self.cap {
            BackingMode::Mmap
        } else if self.commited == self.cap + 1 {
            BackingMode::Slice
        } else {
            BackingMode::Box
        }
    }

    /// All the memory of the arena.
    pub open spec fn memory(self) -> Region {
        Region { addr: self.ptr as usize, len: self.cap as usize }
    }

    /// The part of the memory that is known to be committed.
    pub open spec fn committed_region(self) -> Region {
        Region { addr: self.ptr as usize, len: self.commited as usize }
    }

    /// `out` is what clearing comes to when `os` performs the calls. Where
    /// nothing is committed, none is made.
    pub open spec fn clear_outcome<F: FnOnce(OsCall) -> OsReply>(
        self,
        target: Target,
        os: F,
        out: Result<(), i32>,
    ) -> bool {
        if self.commited == 0 {
            out is Ok
        } else {
            virtual_mem::decommit_answer(target, self.committed_region(), os, out)
        }
    }

    /// The books once everything has been taken back.
    pub open spec fn cleared(self) -> ArnaState {
        ArnaState { pos: 0, commited: 0, ..self }
    }

    /// The address of the first free byte, as address arithmetic gives it: it
    /// wraps around where `pos` has left the arena that far behind.
    pub open spec fn cursor(self) -> nat {
        if self.ptr + self.pos > usize::MAX {
            (self.ptr + self.pos - usize::MAX - 1) as nat
        } else {
            self.ptr + self.pos
        }
    }

    /// Where in the arena a block of extent `e` starts.
    pub open spec fn start(self, e: Extent) -> nat {
        self.pos + padding(self.cursor(), e.align)
    }

    /// Where in the arena a block of extent `e` ends.
    pub open spec fn end(self, e: Extent) -> nat {
        self.start(e) + e.size
    }

    /// Whether memory has to be committed before a block of extent `e` can be
    /// handed out. A slice or a box is there already and is never committed.
    pub open spec fn needs_commit(self, e: Extent) -> bool {
        self.mode() is Mmap && self.end(e) > self.commited
    }

    /// The region to commit for a block of extent `e`. It starts with the
    /// arena. It reaches one chunk beyond what is committed, or to the end of
    /// the block if that is farther, but not beyond the arena; and it consists
    /// of whole pages.
    pub open spec fn commit_region(self, e: Extent) -> Region {
        let wanted = vstd::math::min(
            self.cap as int,
            vstd::math::max(self.commited + COMMIT_CHUNK, self.end(e) as int),
        );
        Region {
            addr: self.ptr as usize,
            len: round_up(wanted as nat, PAGE_SIZE as nat) as usize,
        }
    }

    /// The books once a block of extent `e` is asked for and nothing has been
    /// decided yet.
    pub open spec fn advanced(self, e: Extent) -> ArnaState {
        ArnaState { pos: self.end(e), ..self }
    }

    /// The books after a block of extent `e` was asked for. `committed` tells
    /// that no commit was needed or that it succeeded.
    pub open spec fn after_alloc(self, e: Extent, committed: bool) -> ArnaState {
        ArnaState {
            pos: if committed && self.end(e) > self.cap {
                self.cap
            } else {
                self.end(e)
            },
            commited: if committed && self.needs_commit(e) {
                self.commit_region(e).len as nat
            } else {
                self.commited
            },
            ..self
        }
    }

    /// The address of the block of extent `e` that was asked for.
    pub open spec fn placed(self, e: Extent, committed: bool) -> Result<usize, OOM> {
        if committed && self.end(e) <= self.cap {
            Ok((self.ptr + self.start(e)) as usize)
        } else {
            Err(OOM)
        }
    }

    /// `committed` is how the commit for a block of extent `e` comes out when
    /// `os` performs the call. Where none is needed, none is made.
    pub open spec fn commit_outcome<F: FnOnce(OsCall) -> OsReply>(
        self,
        e: Extent,
        target: Target,
        os: F,
        committed: bool,
    ) -> bool {
        if self.needs_commit(e) {
            exists|out: Result<(), i32>| #[trigger]
                virtual_mem::commit_answer(target, self.commit_region(e), os, out) && committed
                    == (out is Ok)
        } else {
            committed
        }
    }

    /// What an allocation of extent `e` comes to when `os` performs the commit:
    /// `after` are the books then, and `out` is the address.
    pub open spec fn allocates<F: FnOnce(OsCall) -> OsReply>(
        self,
        e: Extent,
        target: Target,
        os: F,
        after: ArnaState,
        out: Result<usize, OOM>,
    ) -> bool {
        exists|committed: bool|
            {
                &&& #[trigger] self.commit_outcome(e, target, os, committed)
                &&& after == self.after_alloc(e, committed)
                &&& out == self.placed(e, committed)
            }
    }

    /// `os` can perform the commit for a block of extent `e`, if there is one.
    pub open spec fn can_commit<F: FnOnce(OsCall) -> OsReply>(
        self,
        e: Extent,
        target: Target,
        os: F,
    ) -> bool {
        let region = self.commit_region(e);
        self.needs_commit(e) && region.names_memory() ==> call_requires(
            os,
            (virtual_mem::commit_call(target, region),),
        )
    }

    /// Values may be put into a block of extent `e`: it fits, and what had to be
    /// committed for it has been committed.
    pub open spec fn may_write<F: FnOnce(OsCall) -> OsReply>(
        self,
        e: Extent,
        target: Target,
        os: F,
    ) -> bool {
        self.end(e) <= self.cap && self.commit_outcome(e, target, os, true)
    }

    /// `region` is a start of the reserved memory that takes in all that was
    /// committed before.
    pub open spec fn may_count_as_committed(self, region: Region) -> bool {
        &&& self.mode() is Mmap
        &&& region.addr == self.ptr
        &&& self.commited <= region.len <= self.cap
    }

    /// What a checkpoint taken now remembers.
    pub open spec fn checkpoint(self) -> CheckpointState {
        CheckpointState {
            ptr: self.ptr,
            cap: self.cap,
            prev_pos: self.pos,
            depth: self.depth + 1,
        }
    }

    /// The books once a checkpoint has been taken.
    pub open spec fn opened(self) -> ArnaState {
        ArnaState { depth: self.depth + 1, ..self }
    }

    /// The books once the checkpoint `c` has been dropped.
    pub open spec fn closed(self, c: CheckpointState) -> ArnaState {
        ArnaState { pos: c.prev_pos, depth: (self.depth - 1) as nat, ..self }
    }

    /// The address of value number `i` of the `len` values of type `T` that
    /// were asked for.
    pub open spec fn slot<T>(self, len: nat, i: int) -> usize {
        (self.ptr + self.start(Extent::array::<T>(len)) + i * vstd::layout::size_of::<T>()) as usize
    }
}

/// What a checkpoint remembers: the memory of its arena, how many bytes were
/// taken, and how many checkpoints are open, itself among them.
#[verifier::ext_equal]
pub struct CheckpointState {
    pub ptr: nat,
    pub cap: nat,
    pub prev_pos: nat,
    pub depth: nat,
}

impl CheckpointState {
    /// Whether this is the innermost checkpoint of the arena `s`.
    pub open spec fn innermost_of(self, s: ArnaState) -> bool {
        self.ptr == s.ptr && self.cap == s.cap && self.depth == s.depth
    }
}

} // verus!
