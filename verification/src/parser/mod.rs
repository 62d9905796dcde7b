//! A recursive-descent parser, with operator precedence for expressions.
pub mod stream;
mod exprs;
mod items;
mod stmts;
mod types;

pub use self::items::parse_program;
pub use self::stream::{ParseError, ParseResult, Parser};
