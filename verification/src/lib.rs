//! A parser and a type checker.
pub mod ast;
pub mod ast_tree;
pub mod grammar;
pub mod numerals;
pub mod parser;
pub mod spelling;
pub mod text;
pub mod token;
pub mod tree;
pub mod types;
