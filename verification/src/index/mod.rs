//! Traversal over an index: fixed-size records laid out, in one pass over
//! the tokens, in a buffer that the caller owns.
pub mod builder;
pub mod item;
pub mod kin;
pub mod iters;
pub mod node;
pub mod prop;
pub mod store;
pub mod tree;
