//! Decoder for the header and the entry directory of WAD archives.
//!
//! An archive starts with the text `RW` and a version. What follows depends
//! on the major version: a signature blob, a few fields that are read and
//! dropped, and the number of entries. The directory comes last, one record
//! per entry. [`Wad::read`] decodes all of it from a [`BinaryReader`] and
//! [`Entry::read`] a single record; what they return is stated by
//! [`wad::decode_archive`] and [`entry::decode_entry`], functions of the bytes
//! alone.

pub mod bytes;
pub mod entry;
pub mod error;
pub mod laws;
pub mod outcome;
pub mod reader;
pub mod wad;

pub use crate::entry::{Entry, EntryDataChecksum, EntryDataFormat};
pub use crate::error::WadError;
pub use crate::reader::BinaryReader;
pub use crate::wad::Wad;
