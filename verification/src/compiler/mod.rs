//! The scripting language: its parser over the shared lexer.
pub mod parser;
