# wasp

A compiler for wasp, a small language for concise WebAssembly modules,
written in Verus and proved against its specification.

## Layout

- `src/ast.rs` — the syntax tree and its mathematical model.
- `src/text.rs` — character classes of the grammar, and string helpers.
- `src/grammar.rs` — the grammar, as a specification over character
  sequences; `src/parser.rs` — the parser, proved to agree with it.
- `src/module.rs` — the WebAssembly module that compilation builds.
- `src/semantics.rs` — what compiling a program means;
  `src/compiler.rs` — the compiler, proved to build exactly that module.
- `src/laws.rs`, `src/layout.rs`, `src/scope.rs`, `src/depth.rs`,
  `src/comments.rs` — properties of compilation: symbols, name resolution
  and shadowing, function handles and the function type table, C strings,
  the memory layout of data (aligned to four bytes, never overlapping),
  numbering that never changes, the scope of `let`, the depth at which
  `recur` branches, and comments that add no code.
- `src/project.rs` — the order in which a project's files make up a
  program, and the dependency list of `project.wasp`.
- `app/main.rs` — the `wasp` command: file system, `git`, and the binary
  encoding of modules (with floating point) through `wasmly`.

Numbers stay exact in the library: a number literal is kept as written, and
the compiler's own numbers (addresses, indices, symbol values) are integers;
their binary64 encodings are made when the module is written out.
