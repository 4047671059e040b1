//! Traversal that decodes the token stream as it goes.
pub mod item;
pub mod iters;
pub mod node;
pub mod parse;
pub mod prop;
pub mod tree;
