//! A front end for a small indentation-structured language: interning, lexing, parsing,
//! name binding, type checking with deferred numeric literals, and lowering to C-like text.

pub mod string_pool;
pub mod ast;
pub mod bindings;
pub mod error;
pub mod lexer;
pub mod parser;
pub mod compiler;
