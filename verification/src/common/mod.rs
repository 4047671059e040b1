//! What the two traversal engines share.
pub mod item;
pub mod iter;
pub mod prop;
