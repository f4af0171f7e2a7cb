pub mod assembler;
pub mod instruction;
pub mod opcodes;
pub mod repl;
pub mod types;
pub mod vm;
