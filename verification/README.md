# learn_os

Verified building blocks of a small RISC-V teaching kernel, written in Verus.

- `src/buddy.rs` — a buddy-system allocator over a fixed number of units,
  one bit per unit, with first-fit block selection and proofs that a free
  undoes a grant, that over any history of grants and frees the live blocks
  stay in use and apart, so a grant never overlaps a live block
  (`law_history_keeps_live_blocks_apart`), and that freed buddies merge.
- `src/page.rs`, `src/kernel.rs` — Sv39 leaf mappings, `id_map_range`, the
  kernel's boot-time identity map and the `satp` value, with proofs of what
  each page maps to, that every covered address translates to itself, and
  that every kernel page is valid, readable, and writable or executable.
- `src/trap.rs`, `src/syscall.rs`, `src/console.rs` — what the kernel decides
  on a trap, on `write`, and for a byte typed at the console.
- `src/logger.rs` — the `LOG` level setting handed to the `log` crate,
  level colors and log lines.
- `src/text.rs`, `src/cloning.rs` — small string and cloning helpers.
- `app/` — the program around the library: the `log` crate logger object,
  register access, raw memory, printing and input.

The tests under `tests/` exercise the library on concrete values.
