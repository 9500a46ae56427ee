//! A small dynamically typed scripting language with a loosely
//! JavaScript-like syntax: a lexer, a recursive-descent parser, a
//! tree-walking evaluator over one flat environment, and a bridge through
//! which a host process supplies native functions.
#![verifier::loop_isolation(false)]

pub mod ast;
pub mod errors;
pub mod eval;
pub mod laws;
pub mod lexer;
pub mod modules;
pub mod num;
pub mod package;
pub mod ops;
pub mod parser;
pub mod render;
pub mod runtime;
pub mod token;
pub mod value;
