//! Front end of a small imperative language: a scanner, a recursive-descent
//! parser, a typed syntax tree, and an emitter that flattens the tree into
//! three-address code with symbolic labels and compiler-generated temporaries.
pub mod text;
pub mod tokens;
pub mod types;
pub mod inter;
pub mod expr;
pub mod stmt;
pub mod lexer;
pub mod parser;
pub mod laws;
