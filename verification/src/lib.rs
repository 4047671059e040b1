//! A parser and query library for the Flattened Device Tree (FDT / DTB)
//! format.
//!
//! A caller hands over an untrusted byte buffer. [`base::tree::DevTree`]
//! checks its header and offers lazy, copyable cursors over its nodes,
//! properties and memory-reservation entries, which decode the tokens of the
//! structure block as they go. [`index::tree::DevTreeIndex`] spends one pass
//! over the tokens to lay out fixed-size records in a second buffer that the
//! caller owns, and offers the same cursors over those records, and cursors
//! over the siblings and children of a node besides.
//!
//! Every function states what it returns over the bytes of the buffers, and
//! none panics, whatever the buffers hold.
//!
//! * [`bytes`]: bounds-checked reads of big-endian integers and of
//!   zero-terminated strings.
//! * [`wire`]: the constants of the format.
//! * [`base`]: the token parser, the tree, and its cursors and handles.
//! * [`common`]: the model of an item stream, the searches that both engines
//!   share, and the typed reads of a property's value.
//! * [`index`]: the record store, the pass that builds an index, and the
//!   cursors and handles over it.
//! * [`laws`]: what holds of the library as a whole.
pub mod base;
pub mod bytes;
pub mod common;
pub mod error;
pub mod index;
pub mod laws;
pub mod wire;
