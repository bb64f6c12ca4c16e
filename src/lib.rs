//! Parser for a small template language. Text is literal except where one of
//! four reserved multi-byte markers introduces an interpolation or a positive
//! conditional with a nested block; parsing yields a tree of nodes that view
//! into the input.
pub mod grammar;
pub mod laws;
pub mod markers;
pub mod parser;
pub mod syntax;

pub use markers::{BLOCK_CLOSE, BLOCK_OPEN, INTERP, POSITIVE};
pub use parser::{block, conditional, interpolation, multi, parse};
pub use syntax::Node;
