//! The error kinds of the library.
use core::str::Utf8Error;
use vstd::prelude::*;

verus! {

/// `core::str::Utf8Error`, carried through unopened: nothing is stated of
/// what a value of it holds.
#[verifier::external_type_specification]
#[verifier::external_body]
pub struct ExUtf8Error(Utf8Error);

/// What can go wrong while a device tree is read.
#[derive(Debug, Clone, Copy)]
pub enum DevTreeError {
    /// The buffer does not start with the FDT magic number.
    InvalidMagicNumber,
    /// A read at the given offset would leave the buffer or the property.
    InvalidOffset,
    /// The data is not laid out as the format demands.
    ParseError,
    /// Bytes that should be text are not valid UTF-8.
    StrError(Utf8Error),
    /// The version of the device tree is not supported.
    VersionNotSupported,
    /// The buffer offered for an index is too small.
    NotEnoughMemory,
    /// The token stream ended.
    Eof,
}

/// Why a read from a byte slice failed.
#[derive(Debug, Clone, Copy, PartialEq, Eq, Structural)]
pub enum SliceReadError {
    /// The slice ended before the value did.
    UnexpectedEndOfInput,
}

impl DevTreeError {
    /// Every failed slice read is a malformed tree.
    pub fn from_read_error(e: SliceReadError) -> (r: DevTreeError)
        ensures
            r is ParseError,
    {
        DevTreeError::ParseError
    }

    /// Wraps a decoding failure.
    pub fn from_utf8_error(e: Utf8Error) -> (r: DevTreeError)
        ensures
            r == DevTreeError::StrError(e),
    {
        DevTreeError::StrError(e)
    }
}

} // verus!
