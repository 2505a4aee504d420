//! The error taxonomy: validation defects name the violated field, a missing
//! token identifier is reported apart from storage failures, and a storage
//! failure tells file access apart from undecodable file contents.

use vstd::prelude::*;

verus! {

/// Why a record failed validation, naming the violated field.
#[derive(Clone, Copy, Debug, PartialEq, Eq, Structural)]
pub enum ValidationError {
    /// The token identifier is empty or only whitespace.
    EmptyTokenId,
    /// The owner identifier is zero.
    NonPositiveOwnerId,
    /// The creation date is not a well-formed calendar date.
    MalformedCreationDate,
    /// The creation date lies after the current date.
    FutureCreationDate,
    /// The category's free text is empty or only whitespace.
    EmptyCategory,
}

/// Why the store could not be read or written: the file was unreadable for a
/// reason other than being absent, or its bytes do not decode as a store.
#[derive(Clone, Copy, Debug, PartialEq, Eq, Structural)]
pub enum StorageError {
    /// File access failed (an absent file is not an error: it stands for the
    /// empty store).
    Io,
    /// The file's bytes do not match the store encoding.
    Decode,
}

/// Why a command was rejected. Every rejected command leaves the store as it
/// was.
#[derive(Clone, Copy, Debug, PartialEq, Eq, Structural)]
pub enum CommandError {
    /// The record to be written failed validation.
    Validation(ValidationError),
    /// No record carries the requested token identifier.
    NotFound,
    /// The store could not be read or written.
    Storage(StorageError),
}

} // verus!
