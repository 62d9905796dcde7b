//! The grammar, as functions from a place in a token stream to what stands there.
pub mod cursor;
pub mod exprs;
pub mod forms;
pub mod items;
pub mod joined;
pub mod laws;
pub mod recovery;
pub mod stmts;
pub mod types;
pub mod windows;
