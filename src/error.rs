//! Errors that reach the caller.
use vstd::prelude::*;

verus! {

#[derive(Clone, Debug, PartialEq, Eq)]
pub enum ChatError {
    /// A group or channel with this identifier is already held.
    DuplicateID,
    /// No group or channel that this participant may write to has this identifier.
    InvalidGroup(String),
    /// A decrypted payload is not the encoding of any payload variant.
    DecodeError,
    /// Bytes that should encode a group element do not.
    InvalidPoint,
    /// Bytes that should encode a scalar are not its canonical encoding.
    InvalidScalar,
    /// An invite blob has the wrong length.
    InvalidLength(usize),
    /// An invite's text is not base64.
    InvalidBase64,
}

} // verus!
