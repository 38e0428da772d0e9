//! The tokenizer: characters, positions, tokens and the lexer over them.
pub mod character;
pub mod position;
pub mod token;

pub mod lexer;
