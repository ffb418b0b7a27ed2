# mikan_script

A small language toolchain and the virtual machine it targets, written in
Verus with its behaviour stated in contracts and proved.

- `src/text.rs` — text helpers over `char` sequences (trimming, words,
  lines) with their specifications.
- `src/lang/` — the language: `lexer` (tokens), `ast` (the syntax tree and
  its mathematical view), `parser` (recursive descent, specified by a
  grammar over token states), `compiler` (the tree to assembly text, with
  the register allocator, labels, interned strings and the data section),
  `optimizer` (peephole passes over assembly lines).
- `src/vm/` — the machine: `instruction` (opcodes and instruction words),
  `numeric` (immediates and register tokens), `pre_decoder` (assembly text
  to instruction words), `function`, `memory` (heaps addressed by virtual
  pointers), `io` (futures and the reactor interface), `ops` (the VM state
  and every integer, bit, register, control, memory and I/O instruction),
  `step` (one instruction at a time: the word at pc dispatched to its
  handler, and a fuel-bounded run), `code_manager` (the function table).
- `app/` — the compiler's command line (`--run` decodes assembly and runs
  it), and the floating-point instructions that a step hands out.
- `tests/` — scenarios run against the compiled library.
