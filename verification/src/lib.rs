//! A bump allocator over one block of memory, with nested checkpoints and an
//! optional virtual-memory backing.
//!
//! The crate holds the bookkeeping: where the next allocation goes, when more
//! memory has to be committed, what a checkpoint restores, which calls the
//! operating system is asked to make and how its answers are read. Addresses
//! are plain integers here. A caller brings the memory itself and a function
//! that performs an [`sys::OsCall`].
pub mod arna;
pub mod block_laws;
pub mod call_laws;
pub mod laws;
pub mod layout;
pub mod state;
pub mod sys;
pub mod virtual_mem;

pub use crate::arna::{Arna, BoxMemory, Checkpoint, SliceMemory, Slots};
pub use crate::layout::Layout;
pub use crate::state::{BackingMode, OOM};
