# arna

A bump allocator over one block of memory, with nested checkpoints and an
optional virtual-memory backing. The bookkeeping is verified with Verus.

- `src/state.rs` says what an arena is and what each operation makes of it.
- `src/arna.rs` holds the arena and its checkpoints.
- `src/layout.rs` holds sizes with alignments.
- `src/virtual_mem.rs` and `src/sys/` hold the virtual-memory layer: the calls
  for Linux, Windows and macOS, and how their replies are read.
- `src/laws.rs` states what holds over a whole life of an arena.
- `app/` puts the arena over real memory.
