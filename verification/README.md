# gcrecomp_core

A static recompiler for GameCube programs: it reads DOL executables,
decodes their PowerPC instructions, analyses control and data flow, and
generates Rust source with one function per recompiled function and an
address dispatcher. A small runtime side models the console's memory map,
arena allocator, interrupts, timebase and a read-only disc filesystem.

The library in `src/` is written in Verus: each public function states its
result in `requires`/`ensures` over mathematical models (`Seq`, `Map`,
`Set`, spec functions), and the properties that relate several functions
are stated and proved as `law_*` proof functions.

Layout:

- `src/decoder.rs`, `src/dol.rs` — instruction decoding, DOL parsing.
- `src/control_flow.rs`, `src/data_flow.rs`, `src/loop_analysis.rs`,
  `src/pointer.rs`, `src/inter_procedural.rs`, `src/analysis.rs` — analyses.
- `src/codegen/`, `src/ir/`, `src/optimizer/`, `src/pipeline.rs`,
  `src/validator.rs`, `src/structure.rs` — code generation and its checks.
- `src/memory.rs`, `src/heap.rs`, `src/interrupt.rs`, `src/timer.rs`,
  `src/context.rs`, `src/dvd.rs` — the runtime models.
- `src/codecs.rs` — the calls into zstd and flate2, with their contracts.
- `app/` — the command-line program: file and process I/O, the Ghidra
  export reader, global runtime switches and SDK entry points.
- `tests/` — tests of the library on concrete values.
