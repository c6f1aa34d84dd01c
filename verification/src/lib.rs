//! An interpreter for a small imperative scripting language: a lexer,
//! a recursive-descent parser, a static type-and-scope checker, a
//! bytecode compiler and a stack machine, each stage verified against
//! a functional specification of what it produces.

pub mod bytecode;
pub mod errors;
pub mod file_handler;
pub mod float;
pub mod laws;
pub mod lexer;
pub mod numtext;
pub mod parser;
pub mod pipeline;
pub mod scope;
pub mod textops;
pub mod types;
pub mod validator;
pub mod vm;
