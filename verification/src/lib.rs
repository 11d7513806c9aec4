//! A small imperative scripting language: lexer, parser and evaluator.
//!
//! Source text is scanned into tokens, tokens are parsed into statements and
//! statements are evaluated by a resumable machine that hands every effect
//! (console, subprocess, clock, floating-point arithmetic) to its host.

pub mod text;
pub mod errors;
pub mod token;
pub mod lexer;
pub mod ast;
pub mod grammar;
pub mod parser;
pub mod number;
pub mod value;
pub mod environment;
pub mod semantics;
pub mod guarantees;
pub mod blocks;
pub mod machine;
pub mod interpreter;
