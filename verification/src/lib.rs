//! A small compiler front end: tokenizer, parser and compile-time elaborator
//! for the `comp` language, with its contracts proved by Verus.

pub mod source;
pub mod diagnostics;
pub mod token;
pub mod tokenizer;
pub mod ast;
pub mod parser;
pub mod types;
pub mod symbols;
pub mod comptime;
pub mod util;
pub mod hir;
pub mod text;
pub mod elaboration;
pub mod driver;
pub mod imports;
pub mod codegen;
pub mod lowering;
pub mod loader;
