//! A CHIP-8 toolchain: the instruction word and its fields, the 4 KiB memory
//! image, the interpreter's register machine, and a two-pass assembler that
//! turns mnemonic source into the same bytecode. A lexer is shared by the
//! assembler and by the parser of a small scripting language.
pub mod text;
pub mod opcode;
pub mod memory;
pub mod keys;
pub mod screen;
pub mod cpu;
pub mod chip;
pub mod utils;
pub mod assembler;
pub mod syntax;
pub mod compiler;
