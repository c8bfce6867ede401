//! The archive: its header, its directory, and how both are decoded.

use crate::bytes::{latin1, le_value};
use crate::entry::{decode_entry, Entry, EntryView};
use crate::error::{Failure, WadError};
use crate::outcome::Decoded;
use crate::reader::BinaryReader;
use std::collections::hash_map;
use std::collections::HashMap;
use vstd::prelude::*;

verus! {

/// A decoded archive: the signature blob of its header and its directory,
/// which finds each entry by the hash of its path.
#[derive(Debug)]
pub struct Wad {
    signature: Vec<u8>,
    entries: HashMap<u64, Entry>,
}

/// A [`Wad`] as a plain value.
pub struct WadView {
    pub signature: Seq<u8>,
    pub entries: Map<u64, EntryView>,
}

/// A directory with each entry as a plain value.
pub open spec fn directory_view(entries: Map<u64, Entry>) -> Map<u64, EntryView> {
    entries.map_values(|entry: Entry| entry@)
}

impl View for Wad {
    type V = WadView;

    closed spec fn view(&self) -> WadView {
        WadView { signature: self.signature@, entries: directory_view(self.entries@) }
    }
}

impl WadView {
    /// Whether the directory finds every entry under the entry's own hash.
    pub open spec fn well_formed(self) -> bool {
        forall|hash: u64| #[trigger]
            self.entries.contains_key(hash) ==> self.entries[hash].xxhash == hash
    }
}

/// The text with which every archive starts.
pub open spec fn magic() -> Seq<char> {
    seq!['R', 'W']
}

/// The highest major version whose layout is known.
pub const LATEST_MAJOR: u8 = 3;

/// The length byte of a version 2 signature counts down from this.
pub const SIGNATURE_SPAN_V2: u8 = 83;

/// The length of a version 3 signature.
pub const SIGNATURE_LEN_V3: usize = 256;

/// The number of bytes that a record takes at least: the width of a record
/// without a checksum.
pub const SHORTEST_RECORD: usize = 24;

/// Whether the header of major version `major` holds the two fields of the
/// older table of contents.
pub open spec fn has_legacy_toc(major: u8) -> bool {
    major == 1 || major == 2
}

/// Decoding the start of a header, at index `at` of `bytes`: the magic text,
/// then the major and the minor version.
pub open spec fn decode_version(bytes: Seq<u8>, at: int) -> Decoded<(u8, u8)> {
    let available = bytes.len() - at;
    if available < 2 {
        Decoded::Failed { failure: Failure::Io, end: at }
    } else if latin1(bytes.subrange(at, at + 2)) != magic() {
        Decoded::Failed {
            failure: Failure::InvalidSignature(latin1(bytes.subrange(at, at + 2))),
            end: at + 2,
        }
    } else if available < 4 {
        Decoded::Failed { failure: Failure::Io, end: if available < 3 {
            at + 2
        } else {
            at + 3
        } }
    } else if bytes[at + 2] > LATEST_MAJOR {
        Decoded::Failed {
            failure: Failure::UnsupportedVersion(bytes[at + 2], bytes[at + 3]),
            end: at + 4,
        }
    } else {
        Decoded::Value { value: (bytes[at + 2], bytes[at + 3]), end: at + 4 }
    }
}

/// Decoding the signature blob of a header of major version `major`, at
/// index `at` of `bytes`. Version 2 has a length byte `l` and then `83 - l`
/// bytes, version 3 has 256 bytes, and the versions before have none.
pub open spec fn decode_signature(bytes: Seq<u8>, at: int, major: u8) -> Decoded<Seq<u8>> {
    let available = bytes.len() - at;
    if major == 2 {
        if available < 1 {
            Decoded::Failed { failure: Failure::Io, end: at }
        } else if bytes[at] > SIGNATURE_SPAN_V2 {
            Decoded::Failed { failure: Failure::InvalidSignatureLength(bytes[at]), end: at + 1 }
        } else if available < 1 + (SIGNATURE_SPAN_V2 - bytes[at]) {
            Decoded::Failed { failure: Failure::Io, end: at + 1 }
        } else {
            Decoded::Value {
                value: bytes.subrange(at + 1, at + 1 + (SIGNATURE_SPAN_V2 - bytes[at])),
                end: at + 1 + (SIGNATURE_SPAN_V2 - bytes[at]),
            }
        }
    } else if major == 3 {
        if available < SIGNATURE_LEN_V3 {
            Decoded::Failed { failure: Failure::Io, end: at }
        } else {
            Decoded::Value {
                value: bytes.subrange(at, at + SIGNATURE_LEN_V3),
                end: at + SIGNATURE_LEN_V3,
            }
        }
    } else {
        Decoded::Value { value: Seq::empty(), end: at }
    }
}

/// Decoding the end of a header of major version `major`, at index `at` of
/// `bytes`: 8 bytes that mean nothing, in versions 1 and 2 two fields of 2
/// bytes each that mean nothing either, then the number of entries.
pub open spec fn decode_entry_count(bytes: Seq<u8>, at: int, major: u8) -> Decoded<u32> {
    let available = bytes.len() - at;
    if available < 8 {
        Decoded::Failed { failure: Failure::Io, end: at }
    } else if has_legacy_toc(major) {
        if available < 16 {
            Decoded::Failed { failure: Failure::Io, end: if available < 10 {
                at + 8
            } else if available < 12 {
                at + 10
            } else {
                at + 12
            } }
        } else {
            Decoded::Value { value: le_value(bytes, at + 12, 4) as u32, end: at + 16 }
        }
    } else {
        if available < 12 {
            Decoded::Failed { failure: Failure::Io, end: at + 8 }
        } else {
            Decoded::Value { value: le_value(bytes, at + 8, 4) as u32, end: at + 12 }
        }
    }
}

/// Entering a record into `directory`, where `record` is the outcome of
/// decoding it: the record goes in under its hash, unless decoding it failed
/// or that hash is there already.
pub open spec fn enter(directory: Map<u64, EntryView>, record: Decoded<EntryView>) -> Decoded<
    Map<u64, EntryView>,
> {
    match record {
        Decoded::Failed { failure, end } => Decoded::Failed { failure, end },
        Decoded::Value { value: entry, end } => if directory.contains_key(entry.xxhash) {
            Decoded::Failed { failure: Failure::DuplicateEntry(entry.xxhash), end }
        } else {
            Decoded::Value { value: directory.insert(entry.xxhash, entry), end }
        },
    }
}

/// Decoding the first `count` records of a directory that starts at index
/// `at` of `bytes`, one after the other, each entered into the directory of
/// those before it. The first record that cannot be entered ends the
/// decoding.
pub open spec fn decode_entries(
    bytes: Seq<u8>,
    at: int,
    major: u8,
    minor: u8,
    count: nat,
) -> Decoded<Map<u64, EntryView>>
    decreases count,
{
    if count == 0 {
        Decoded::Value { value: Map::empty(), end: at }
    } else {
        match decode_entries(bytes, at, major, minor, (count - 1) as nat) {
            Decoded::Failed { failure, end } => Decoded::Failed { failure, end },
            Decoded::Value { value: directory, end: next } => enter(
                directory,
                decode_entry(bytes, next, major, minor),
            ),
        }
    }
}

/// The archive with signature `signature` whose directory decodes as
/// `directory` says.
pub open spec fn with_signature(
    signature: Seq<u8>,
    directory: Decoded<Map<u64, EntryView>>,
) -> Decoded<WadView> {
    match directory {
        Decoded::Failed { failure, end } => Decoded::Failed { failure, end },
        Decoded::Value { value, end } => Decoded::Value {
            value: WadView { signature, entries: value },
            end,
        },
    }
}

/// Decoding the archive that starts at index `at` of `bytes`: the version,
/// the signature, the number of entries and the directory, in this order. The
/// first part that fails decides the outcome.
pub open spec fn decode_archive(bytes: Seq<u8>, at: int) -> Decoded<WadView> {
    match decode_version(bytes, at) {
        Decoded::Failed { failure, end } => Decoded::Failed { failure, end },
        Decoded::Value { value: (major, minor), end: signature_at } => match decode_signature(
            bytes,
            signature_at,
            major,
        ) {
            Decoded::Failed { failure, end } => Decoded::Failed { failure, end },
            Decoded::Value { value: signature, end: count_at } => match decode_entry_count(
                bytes,
                count_at,
                major,
            ) {
                Decoded::Failed { failure, end } => Decoded::Failed { failure, end },
                Decoded::Value { value: count, end: directory_at } => with_signature(
                    signature,
                    decode_entries(bytes, directory_at, major, minor, count as nat),
                ),
            },
        }
    }
}

/// Once decoding a directory has failed, asking for more records changes
/// nothing.
pub proof fn lemma_failure_is_final(
    bytes: Seq<u8>,
    at: int,
    major: u8,
    minor: u8,
    failed: nat,
    count: nat,
)
    requires
        failed <= count,
        decode_entries(bytes, at, major, minor, failed) is Failed,
    ensures
        decode_entries(bytes, at, major, minor, count) == decode_entries(
            bytes,
            at,
            major,
            minor,
            failed,
        ),
    decreases count,
{
    if failed < count {
        lemma_failure_is_final(bytes, at, major, minor, failed, (count - 1) as nat);
    }
}

/// What the next record adds to the first `index` records of a directory
/// that decode: entering it gives the outcome for the first `index + 1`
/// records, and if that is a failure, the outcome for any number of records
/// beyond them.
pub proof fn lemma_next_record(
    bytes: Seq<u8>,
    at: int,
    major: u8,
    minor: u8,
    index: nat,
    count: nat,
)
    requires
        index < count,
        decode_entries(bytes, at, major, minor, index) is Value,
    ensures
        ({
            let before = decode_entries(bytes, at, major, minor, index);
            let after = enter(before->value, decode_entry(bytes, before.end(), major, minor));
            &&& decode_entries(bytes, at, major, minor, index + 1) == after
            &&& after is Failed ==> decode_entries(bytes, at, major, minor, count) == after
        }),
{
    if decode_entries(bytes, at, major, minor, index + 1) is Failed {
        lemma_failure_is_final(bytes, at, major, minor, index + 1, count);
    }
}

impl Wad {
    #[verifier::type_invariant]
    spec fn found_by_hash(&self) -> bool {
        forall|hash: u64| #[trigger]
            self.entries@.contains_key(hash) ==> self.entries@[hash]@.xxhash == hash
    }

    /// What `mount_from_path` makes of `contents`, the outcome of reading the
    /// file: the archive decoded from the start of the file's bytes, or the
    /// error with which the file could not be read.
    pub open spec fn mounts(
        contents: Result<Vec<u8>, std::io::Error>,
        result: Result<Wad, WadError>,
    ) -> bool {
        match contents {
            Ok(image) => decode_archive(image@, 0).yields(result),
            Err(error) => result == Err::<Wad, WadError>(WadError::IoError(error)),
        }
    }

    /// Mounts the archive in the file at `path`. `read_file` is handed `path`
    /// and returns all bytes of the file, or the error with which the file
    /// could not be read, which is passed on as it is.
    pub fn mount_from_path<P, F>(path: P, read_file: F) -> (result: Result<Wad, WadError>) where
        F: FnOnce(P) -> Result<Vec<u8>, std::io::Error>,

        requires
            read_file.requires((path,)),
        ensures
            exists|contents: Result<Vec<u8>, std::io::Error>|
                read_file.ensures((path,), contents) && Wad::mounts(contents, result),
    {
        let contents = read_file(path);
        let result = match contents {
            Ok(image) => {
                let mut br = BinaryReader::new(image);
                Wad::read(&mut br)
            },
            Err(error) => Err(WadError::from(error)),
        };
        assert(Wad::mounts(contents, result));
        result
    }

    /// Reads an archive: its header, and then its directory record by record.
    pub fn read(br: &mut BinaryReader) -> (result: Result<Wad, WadError>)
        ensures
            final(br).bytes() == old(br).bytes(),
            decode_archive(old(br).bytes(), old(br).position() as int).is_met_by(
                result,
                final(br).position() as int,
            ),
    {
        let ghost bytes = br.bytes();
        let ghost start = br.position() as int;
        let token = match br.read_string(2) {
            Ok(text) => text,
            Err(error) => return Err(WadError::from(error)),
        };
        proof {
            reveal_strlit("RW");
            assert("RW"@ =~= magic());
        }
        if !(token == "RW".to_owned()) {
            return Err(WadError::InvalidSignature(token));
        }
        let major = match br.read_u8() {
            Ok(value) => value,
            Err(error) => return Err(WadError::from(error)),
        };
        let minor = match br.read_u8() {
            Ok(value) => value,
            Err(error) => return Err(WadError::from(error)),
        };
        if major > LATEST_MAJOR {
            return Err(WadError::UnsupportedVersion(major, minor));
        }
        let signature = if major == 2 {
            let length = match br.read_u8() {
                Ok(value) => value,
                Err(error) => return Err(WadError::from(error)),
            };
            if length > SIGNATURE_SPAN_V2 {
                return Err(WadError::InvalidSignatureLength(length));
            }
            match br.read_bytes((SIGNATURE_SPAN_V2 - length) as usize) {
                Ok(blob) => blob,
                Err(error) => return Err(WadError::from(error)),
            }
        } else if major == 3 {
            match br.read_bytes(SIGNATURE_LEN_V3) {
                Ok(blob) => blob,
                Err(error) => return Err(WadError::from(error)),
            }
        } else {
            Vec::new()
        };
        match br.read_u64() {
            Ok(_) => {},
            Err(error) => return Err(WadError::from(error)),
        }
        if major == 1 || major == 2 {
            match br.read_u16() {
                Ok(_) => {},
                Err(error) => return Err(WadError::from(error)),
            }
            match br.read_u16() {
                Ok(_) => {},
                Err(error) => return Err(WadError::from(error)),
            }
        }
        let entry_count = match br.read_u32() {
            Ok(value) => value,
            Err(error) => return Err(WadError::from(error)),
        };
        let entries = match Wad::read_entries(br, major, minor, entry_count) {
            Ok(entries) => entries,
            Err(error) => return Err(error),
        };
        Ok(Wad { signature, entries })
    }

    /// Reads the `count` records of a directory into a map that finds each
    /// under its hash.
    fn read_entries(br: &mut BinaryReader, major: u8, minor: u8, count: u32) -> (result: Result<
        HashMap<u64, Entry>,
        WadError,
    >)
        ensures
            final(br).bytes() == old(br).bytes(),
            final(br).position() == decode_entries(
                old(br).bytes(),
                old(br).position() as int,
                major,
                minor,
                count as nat,
            ).end(),
            match decode_entries(
                old(br).bytes(),
                old(br).position() as int,
                major,
                minor,
                count as nat,
            ) {
                Decoded::Value { value, .. } => {
                    &&& result matches Ok(entries)
                    &&& directory_view(entries@) == value
                    &&& forall|hash: u64| #[trigger]
                        entries@.contains_key(hash) ==> entries@[hash]@.xxhash == hash
                },
                Decoded::Failed { failure, .. } => result matches Err(error) && error@ == failure,
            },
    {
        let ghost bytes = br.bytes();
        let ghost at = br.position() as int;
        // The header may announce more records than the bytes that are left
        // can hold, so room is made for no more than those.
        let room = br.remaining_len() / SHORTEST_RECORD;
        let mut entries = HashMap::<u64, Entry>::with_capacity(
            if (count as usize) < room {
                count as usize
            } else {
                room
            },
        );
        assert(directory_view(entries@) =~= Map::empty());
        let mut index: u32 = 0;
        while index < count
            invariant
                index <= count,
                bytes == old(br).bytes(),
                at == old(br).position(),
                br.bytes() == bytes,
                decode_entries(bytes, at, major, minor, index as nat) == (Decoded::Value {
                    value: directory_view(entries@),
                    end: br.position() as int,
                }),
                forall|hash: u64| #[trigger]
                    entries@.contains_key(hash) ==> entries@[hash]@.xxhash == hash,
            decreases count - index,
        {
            proof {
                lemma_next_record(bytes, at, major, minor, index as nat, count as nat);
            }
            let ghost before = entries@;
            let entry = match Entry::read(br, major, minor) {
                Ok(entry) => entry,
                Err(error) => return Err(error),
            };
            let hash = entry.xxhash();
            let ghost entered = entry@;
            match entries.entry(hash) {
                hash_map::Entry::Occupied(_) => return Err(WadError::DuplicateEntry(hash)),
                hash_map::Entry::Vacant(vacancy) => {
                    vacancy.insert(entry);
                },
            }
            assert(directory_view(entries@) =~= directory_view(before).insert(hash, entered));
            index += 1;
        }
        Ok(entries)
    }

    /// The signature blob of the header.
    pub fn signature(&self) -> (signature: &Vec<u8>)
        ensures
            signature@ == self@.signature,
    {
        &self.signature
    }

    /// The directory: each entry under the hash of its path.
    pub fn entries(&self) -> (entries: &HashMap<u64, Entry>)
        ensures
            directory_view(entries@) == self@.entries,
            self@.well_formed(),
    {
        proof {
            use_type_invariant(self);
        }
        &self.entries
    }
}

} // verus!
