//! The execution core of a bytecode interpreter for a small dynamically-typed
//! scripting language: a compact instruction format with a constant pool and
//! source-line map (`chunk`), the runtime value representation (`value`), a
//! disassembler for diagnostics (`debug`), and a stack-based virtual machine
//! that executes the instructions (`vm`). The `tokens` module holds only the
//! classification tags of the front-end lexer collaborator: lexing itself is
//! outside this core, which consumes finished chunks, never source text.

pub mod chunk;
pub mod debug;
pub mod tokens;
pub mod value;
pub mod vm;
