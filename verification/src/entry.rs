//! One record of an archive's directory, and how it lies in the archive.

use crate::bytes::{le_signed, le_value};
use crate::error::{Failure, WadError};
use crate::outcome::Decoded;
use crate::reader::BinaryReader;
use vstd::prelude::*;
use vstd::std_specs::convert::TryFromSpecImpl;

verus! {

/// How an entry's data is stored. The tag byte of a record is the position of
/// the format in this list, counted from 0.
#[derive(Clone, Copy, Debug, PartialEq, Eq, Structural)]
pub enum EntryDataFormat {
    Raw,
    GZip,
    FileRedirection,
    Zstd,
    Unknown,
}

impl EntryDataFormat {
    /// The format that a tag byte names, if it names one.
    pub open spec fn of_tag(tag: u8) -> Option<EntryDataFormat> {
        if tag == 0 {
            Some(EntryDataFormat::Raw)
        } else if tag == 1 {
            Some(EntryDataFormat::GZip)
        } else if tag == 2 {
            Some(EntryDataFormat::FileRedirection)
        } else if tag == 3 {
            Some(EntryDataFormat::Zstd)
        } else if tag == 4 {
            Some(EntryDataFormat::Unknown)
        } else {
            None
        }
    }
}

impl TryFrom<u8> for EntryDataFormat {
    type Error = u8;

    /// The format named by `number`, or `number` itself where it names none.
    fn try_from(number: u8) -> (result: Result<Self, u8>) {
        match number {
            0 => Ok(EntryDataFormat::Raw),
            1 => Ok(EntryDataFormat::GZip),
            2 => Ok(EntryDataFormat::FileRedirection),
            3 => Ok(EntryDataFormat::Zstd),
            4 => Ok(EntryDataFormat::Unknown),
            _ => Err(number),
        }
    }
}

impl TryFromSpecImpl<u8> for EntryDataFormat {
    open spec fn obeys_try_from_spec() -> bool {
        true
    }

    open spec fn try_from_spec(number: u8) -> Result<Self, u8> {
        match EntryDataFormat::of_tag(number) {
            Some(format) => Ok(format),
            None => Err(number),
        }
    }
}

/// The checksum stored with an entry, by the algorithm that the archive's
/// version uses. Where there is one it has 8 bytes.
#[derive(Debug, PartialEq, Eq)]
pub enum EntryDataChecksum {
    Sha256(Vec<u8>),
    XxHash3(Vec<u8>),
    Absent,
}

/// An [`EntryDataChecksum`] with its bytes as a sequence.
pub enum ChecksumView {
    Sha256(Seq<u8>),
    XxHash3(Seq<u8>),
    Absent,
}

impl View for EntryDataChecksum {
    type V = ChecksumView;

    open spec fn view(&self) -> ChecksumView {
        match self {
            EntryDataChecksum::Sha256(bytes) => ChecksumView::Sha256(bytes@),
            EntryDataChecksum::XxHash3(bytes) => ChecksumView::XxHash3(bytes@),
            EntryDataChecksum::Absent => ChecksumView::Absent,
        }
    }
}

impl ChecksumView {
    /// Whether the checksum, if there is one, has 8 bytes.
    pub open spec fn well_formed(self) -> bool {
        match self {
            ChecksumView::Sha256(bytes) => bytes.len() == 8,
            ChecksumView::XxHash3(bytes) => bytes.len() == 8,
            ChecksumView::Absent => true,
        }
    }
}

/// What the directory records of one archive member.
#[derive(Debug, PartialEq, Eq)]
pub struct Entry {
    xxhash: u64,
    compressed_size: i32,
    uncompressed_size: i32,
    data_format: EntryDataFormat,
    data_checksum: EntryDataChecksum,
    data_offset: u32,
    is_duplicated: bool,
}

/// An [`Entry`] as a plain value.
pub struct EntryView {
    pub xxhash: u64,
    pub compressed_size: i32,
    pub uncompressed_size: i32,
    pub data_format: EntryDataFormat,
    pub data_checksum: ChecksumView,
    pub data_offset: u32,
    pub is_duplicated: bool,
}

impl View for Entry {
    type V = EntryView;

    closed spec fn view(&self) -> EntryView {
        EntryView {
            xxhash: self.xxhash,
            compressed_size: self.compressed_size,
            uncompressed_size: self.uncompressed_size,
            data_format: self.data_format,
            data_checksum: self.data_checksum@,
            data_offset: self.data_offset,
            is_duplicated: self.is_duplicated,
        }
    }
}

/// The number of bytes that a record takes in an archive of major version
/// `major`: 24, and 8 more from version 2 on, which added the checksum.
pub open spec fn entry_width(major: u8) -> int {
    if major >= 2 {
        32
    } else {
        24
    }
}

/// The checksum of the record whose checksum field starts at index `at`. The
/// version alone decides whether there is one and by which algorithm.
pub open spec fn checksum_at(bytes: Seq<u8>, at: int, major: u8, minor: u8) -> ChecksumView {
    if major < 2 {
        ChecksumView::Absent
    } else if major == 3 && minor == 1 {
        ChecksumView::XxHash3(bytes.subrange(at, at + 8))
    } else {
        ChecksumView::Sha256(bytes.subrange(at, at + 8))
    }
}

/// The fields of the record that starts at index `at`, for a record that lies
/// whole within `bytes` and has a known format tag.
pub open spec fn entry_at(bytes: Seq<u8>, at: int, major: u8, minor: u8) -> EntryView {
    EntryView {
        xxhash: le_value(bytes, at, 8) as u64,
        data_offset: le_value(bytes, at + 8, 4) as u32,
        compressed_size: le_signed(bytes, at + 12, 4) as i32,
        uncompressed_size: le_signed(bytes, at + 16, 4) as i32,
        data_format: EntryDataFormat::of_tag(bytes[at + 20])->0,
        is_duplicated: bytes[at + 21] == 1,
        data_checksum: checksum_at(bytes, at + 24, major, minor),
    }
}

/// How far into a record the reader gets when only `available` bytes are
/// left: to the end of the last field that is whole. The fields end 8, 12,
/// 16, 20, 21, 22 and 24 bytes into the record, and the checksum at 32.
pub open spec fn entry_fields_within(available: int, major: u8) -> int {
    if available < 8 {
        0
    } else if available < 12 {
        8
    } else if available < 16 {
        12
    } else if available < 20 {
        16
    } else if available < 21 {
        20
    } else if available < 22 {
        21
    } else if available < 24 {
        22
    } else if available < entry_width(major) {
        24
    } else {
        entry_width(major)
    }
}

/// Decoding the record that starts at index `at` of `bytes`. The fields are
/// read in order, so a record that ends early fails on its tag only if the
/// tag is there to be read.
pub open spec fn decode_entry(bytes: Seq<u8>, at: int, major: u8, minor: u8) -> Decoded<
    EntryView,
> {
    let available = bytes.len() - at;
    if available < 21 {
        Decoded::Failed { failure: Failure::Io, end: at + entry_fields_within(available, major) }
    } else if EntryDataFormat::of_tag(bytes[at + 20]) is None {
        Decoded::Failed { failure: Failure::UnknownEntryDataFormat(bytes[at + 20]), end: at + 21 }
    } else if available < entry_width(major) {
        Decoded::Failed { failure: Failure::Io, end: at + entry_fields_within(available, major) }
    } else {
        Decoded::Value { value: entry_at(bytes, at, major, minor), end: at + entry_width(major) }
    }
}

impl Entry {
    #[verifier::type_invariant]
    spec fn checksum_well_formed(&self) -> bool {
        self.data_checksum@.well_formed()
    }

    /// Reads one record of an archive of version `major`.`minor`.
    pub fn read(br: &mut BinaryReader, major: u8, minor: u8) -> (result: Result<Entry, WadError>)
        ensures
            final(br).bytes() == old(br).bytes(),
            decode_entry(old(br).bytes(), old(br).position() as int, major, minor).is_met_by(
                result,
                final(br).position() as int,
            ),
    {
        let xxhash = match br.read_u64() {
            Ok(value) => value,
            Err(error) => return Err(WadError::from(error)),
        };
        let data_offset = match br.read_u32() {
            Ok(value) => value,
            Err(error) => return Err(WadError::from(error)),
        };
        let compressed_size = match br.read_i32() {
            Ok(value) => value,
            Err(error) => return Err(WadError::from(error)),
        };
        let uncompressed_size = match br.read_i32() {
            Ok(value) => value,
            Err(error) => return Err(WadError::from(error)),
        };
        let tag = match br.read_u8() {
            Ok(value) => value,
            Err(error) => return Err(WadError::from(error)),
        };
        let data_format = match EntryDataFormat::try_from(tag) {
            Ok(value) => value,
            Err(number) => return Err(WadError::UnknownEntryDataFormat(number)),
        };
        let is_duplicated = match br.read_u8() {
            Ok(value) => value == 1,
            Err(error) => return Err(WadError::from(error)),
        };
        match br.read_u16() {
            Ok(_) => {},
            Err(error) => return Err(WadError::from(error)),
        }
        let data_checksum = if major >= 2 {
            let checksum = match br.read_bytes(8) {
                Ok(value) => value,
                Err(error) => return Err(WadError::from(error)),
            };
            if major == 3 && minor == 1 {
                EntryDataChecksum::XxHash3(checksum)
            } else {
                EntryDataChecksum::Sha256(checksum)
            }
        } else {
            EntryDataChecksum::Absent
        };
        Ok(
            Entry {
                xxhash,
                data_offset,
                compressed_size,
                uncompressed_size,
                data_format,
                is_duplicated,
                data_checksum,
            },
        )
    }

    /// The hash of the entry's path, by which the directory finds it.
    pub fn xxhash(&self) -> (xxhash: u64)
        ensures
            xxhash == self@.xxhash,
    {
        self.xxhash
    }

    /// The size of the entry's data as it is stored.
    pub fn compressed_size(&self) -> (size: i32)
        ensures
            size == self@.compressed_size,
    {
        self.compressed_size
    }

    /// The size of the entry's data once unpacked.
    pub fn uncompressed_size(&self) -> (size: i32)
        ensures
            size == self@.uncompressed_size,
    {
        self.uncompressed_size
    }

    /// How the entry's data is stored.
    pub fn data_format(&self) -> (format: EntryDataFormat)
        ensures
            format == self@.data_format,
    {
        self.data_format
    }

    /// The checksum of the entry's data.
    pub fn data_checksum(&self) -> (checksum: &EntryDataChecksum)
        ensures
            checksum@ == self@.data_checksum,
            checksum@.well_formed(),
    {
        proof {
            use_type_invariant(self);
        }
        &self.data_checksum
    }

    /// Where in the archive the entry's data starts.
    pub fn data_offset(&self) -> (offset: u32)
        ensures
            offset == self@.data_offset,
    {
        self.data_offset
    }

    /// Whether the record is flagged as a duplicate.
    pub fn is_duplicated(&self) -> (flag: bool)
        ensures
            flag == self@.is_duplicated,
    {
        self.is_duplicated
    }
}

} // verus!
