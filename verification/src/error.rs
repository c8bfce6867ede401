//! The ways in which decoding an archive can fail.

use vstd::prelude::*;
use vstd::std_specs::convert::FromSpecImpl;

verus! {

/// `std::io::Error` is carried through the library unread: nothing is
/// claimed of what a value of it holds.
#[verifier::external_type_specification]
#[verifier::external_body]
pub struct ExIoError(std::io::Error);

/// Why an archive could not be decoded.
#[derive(Debug)]
pub enum WadError {
    /// The byte source failed, or ended inside a field.
    IoError(std::io::Error),
    /// The archive does not start with the magic token; holds the text found
    /// in its place.
    InvalidSignature(String),
    /// The major version is newer than any known layout; holds major and
    /// minor.
    UnsupportedVersion(u8, u8),
    /// Two directory entries have the same path hash; holds that hash.
    DuplicateEntry(u64),
    /// An entry's format tag names no known data format; holds the tag.
    UnknownEntryDataFormat(u8),
    /// A version 2 header announces a signature length byte above 83; holds
    /// that byte.
    InvalidSignatureLength(u8),
}

/// What a [`WadError`] says, with the text as a sequence of characters and
/// without the identity of the underlying I/O error.
pub enum Failure {
    Io,
    InvalidSignature(Seq<char>),
    UnsupportedVersion(u8, u8),
    DuplicateEntry(u64),
    UnknownEntryDataFormat(u8),
    InvalidSignatureLength(u8),
}

impl View for WadError {
    type V = Failure;

    open spec fn view(&self) -> Failure {
        match self {
            WadError::IoError(_) => Failure::Io,
            WadError::InvalidSignature(text) => Failure::InvalidSignature(text@),
            WadError::UnsupportedVersion(major, minor) => Failure::UnsupportedVersion(
                *major,
                *minor,
            ),
            WadError::DuplicateEntry(hash) => Failure::DuplicateEntry(*hash),
            WadError::UnknownEntryDataFormat(tag) => Failure::UnknownEntryDataFormat(*tag),
            WadError::InvalidSignatureLength(length) => Failure::InvalidSignatureLength(*length),
        }
    }
}

impl From<std::io::Error> for WadError {
    fn from(error: std::io::Error) -> (result: Self) {
        WadError::IoError(error)
    }
}

impl FromSpecImpl<std::io::Error> for WadError {
    open spec fn obeys_from_spec() -> bool {
        true
    }

    open spec fn from_spec(error: std::io::Error) -> Self {
        WadError::IoError(error)
    }
}

/// Calls `std::io::Error::from` on `ErrorKind::UnexpectedEof`, the kind with
/// which std reports a source that ends before a read is complete. The error
/// is opaque here, so nothing is claimed of it.
#[verifier::external_body]
pub(crate) fn unexpected_eof() -> std::io::Error {
    std::io::Error::from(std::io::ErrorKind::UnexpectedEof)
}

} // verus!
