//! What holds of every archive, proved from the definitions of the decoders.

use crate::bytes::{latin1, le_value};
use crate::entry::{
    checksum_at, decode_entry, entry_at, entry_width, ChecksumView, EntryDataFormat, EntryView,
};
use crate::error::{Failure, WadError};
use crate::outcome::Decoded;
use crate::wad::{
    decode_archive, decode_entries, decode_entry_count, decode_signature, decode_version,
    lemma_next_record, magic, Wad, WadView,
};
use vstd::prelude::*;

verus! {

/// Whether the two bytes at index `at` of `bytes` are the letters `RW`.
pub open spec fn is_magic_at(bytes: Seq<u8>, at: int) -> bool {
    bytes[at] == 0x52 && bytes[at + 1] == 0x57
}

/// The index at which record `index` of a directory starts, in an archive of
/// major version `major` whose directory starts at index `at`.
pub open spec fn record_at(at: int, major: u8, index: int) -> int {
    at + index * entry_width(major)
}

/// The hash that record `index` of the directory at `at` holds.
pub open spec fn record_hash(bytes: Seq<u8>, at: int, major: u8, index: int) -> u64 {
    le_value(bytes, record_at(at, major, index), 8) as u64
}

/// Whether record `index` of the directory at `at` lies whole within `bytes`
/// and has a known format tag, so that decoding it gives a value.
pub open spec fn record_decodes(bytes: Seq<u8>, at: int, major: u8, index: int) -> bool {
    &&& record_at(at, major, index) + entry_width(major) <= bytes.len()
    &&& EntryDataFormat::of_tag(bytes[record_at(at, major, index) + 20]) is Some
}

/// The text of two bytes is the magic text exactly where the bytes are the
/// letters `RW`.
pub proof fn magic_is_two_letters(bytes: Seq<u8>, at: int)
    requires
        0 <= at,
        at + 2 <= bytes.len(),
    ensures
        latin1(bytes.subrange(at, at + 2)) == magic() <==> is_magic_at(bytes, at),
{
    let text = latin1(bytes.subrange(at, at + 2));
    assert(text[0] == bytes[at] as char);
    assert(text[1] == bytes[at + 1] as char);
    if is_magic_at(bytes, at) {
        assert(text =~= magic());
    }
}

/// A version 3 archive with no entries decodes to its 256 signature bytes and
/// an empty directory, whatever its minor version, and ends with its header.
pub proof fn empty_version_3_archive_decodes(bytes: Seq<u8>, at: int)
    requires
        0 <= at,
        at + 272 <= bytes.len(),
        is_magic_at(bytes, at),
        bytes[at + 2] == 3,
        le_value(bytes, at + 268, 4) == 0,
    ensures
        decode_archive(bytes, at) == (Decoded::Value {
            value: WadView { signature: bytes.subrange(at + 4, at + 260), entries: Map::empty() },
            end: at + 272,
        }),
        bytes.subrange(at + 4, at + 260).len() == 256,
{
    magic_is_two_letters(bytes, at);
}

/// A version 2 archive with length byte `l` and no entries decodes to the
/// `83 - l` signature bytes after the length byte and an empty directory. It
/// ends after the 8 bytes, the two fields of the older table of contents and
/// the count that follow the signature.
pub proof fn empty_version_2_archive_decodes(bytes: Seq<u8>, at: int)
    requires
        0 <= at,
        is_magic_at(bytes, at),
        at + 5 <= bytes.len(),
        bytes[at + 2] == 2,
        bytes[at + 4] <= 83,
        at + 5 + (83 - bytes[at + 4]) + 16 <= bytes.len(),
        le_value(bytes, at + 5 + (83 - bytes[at + 4]) + 12, 4) == 0,
    ensures
        decode_archive(bytes, at) == (Decoded::Value {
            value: WadView {
                signature: bytes.subrange(at + 5, at + 5 + (83 - bytes[at + 4])),
                entries: Map::empty(),
            },
            end: at + 5 + (83 - bytes[at + 4]) + 8 + 2 + 2 + 4,
        }),
        bytes.subrange(at + 5, at + 5 + (83 - bytes[at + 4])).len() == 83 - bytes[at + 4],
{
    magic_is_two_letters(bytes, at);
}

/// A major version above 3 is refused with both version bytes, right after
/// they are read and whatever follows them.
pub proof fn later_versions_are_refused(bytes: Seq<u8>, at: int)
    requires
        0 <= at,
        at + 4 <= bytes.len(),
        is_magic_at(bytes, at),
        bytes[at + 2] > 3,
    ensures
        decode_archive(bytes, at) == (Decoded::<WadView>::Failed {
            failure: Failure::UnsupportedVersion(bytes[at + 2], bytes[at + 3]),
            end: at + 4,
        }),
{
    magic_is_two_letters(bytes, at);
}

/// Two bytes other than `RW` at the start are refused with their text, and
/// before any byte after them is read.
pub proof fn wrong_magic_is_refused(bytes: Seq<u8>, at: int)
    requires
        0 <= at,
        at + 2 <= bytes.len(),
        !is_magic_at(bytes, at),
    ensures
        decode_archive(bytes, at) == (Decoded::<WadView>::Failed {
            failure: Failure::InvalidSignature(latin1(bytes.subrange(at, at + 2))),
            end: at + 2,
        }),
        latin1(bytes.subrange(at, at + 2)) == seq![bytes[at] as char, bytes[at + 1] as char],
{
    magic_is_two_letters(bytes, at);
    assert(latin1(bytes.subrange(at, at + 2)) =~= seq![bytes[at] as char, bytes[at + 1] as char]);
}

/// A record whose format tag is above 4 is refused with that tag, right after
/// the tag is read.
pub proof fn unknown_format_is_refused(bytes: Seq<u8>, at: int, major: u8, minor: u8)
    requires
        0 <= at,
        at + 21 <= bytes.len(),
        bytes[at + 20] > 4,
    ensures
        decode_entry(bytes, at, major, minor) == (Decoded::<EntryView>::Failed {
            failure: Failure::UnknownEntryDataFormat(bytes[at + 20]),
            end: at + 21,
        }),
{
}

/// Which checksum a record has is decided by the version alone: none before
/// version 2, XXH3 in version 3.1, and SHA-256 in every other version. The 8
/// bytes are those at the end of the record, whatever they are.
pub proof fn checksum_kind_follows_version(bytes: Seq<u8>, at: int, major: u8, minor: u8)
    ensures
        major < 2 ==> checksum_at(bytes, at, major, minor) == ChecksumView::Absent,
        major == 3 && minor == 1 ==> checksum_at(bytes, at, major, minor) == ChecksumView::XxHash3(
            bytes.subrange(at, at + 8),
        ),
        major >= 2 && !(major == 3 && minor == 1) ==> checksum_at(bytes, at, major, minor)
            == ChecksumView::Sha256(bytes.subrange(at, at + 8)),
{
}

/// A record that decodes holds the checksum that its version prescribes, made
/// of the record's last 8 bytes.
pub proof fn decoded_checksum_follows_version(bytes: Seq<u8>, at: int, major: u8, minor: u8)
    requires
        0 <= at,
        decode_entry(bytes, at, major, minor) is Value,
    ensures
        decode_entry(bytes, at, major, minor)->value.data_checksum == checksum_at(
            bytes,
            at + 24,
            major,
            minor,
        ),
        decode_entry(bytes, at, major, minor)->value.data_checksum.well_formed(),
{
}

/// A record decodes exactly where it lies whole within the bytes and its tag
/// names a format. Its fields are then the ones that `entry_at` reads, and
/// decoding ends with the record.
pub proof fn whole_records_with_known_format_decode(
    bytes: Seq<u8>,
    at: int,
    major: u8,
    minor: u8,
    index: int,
)
    requires
        0 <= at,
        0 <= index,
    ensures
        record_decodes(bytes, at, major, index) <==> decode_entry(
            bytes,
            record_at(at, major, index),
            major,
            minor,
        ) is Value,
        record_decodes(bytes, at, major, index) ==> decode_entry(
            bytes,
            record_at(at, major, index),
            major,
            minor,
        ) == (Decoded::Value {
            value: entry_at(bytes, record_at(at, major, index), major, minor),
            end: record_at(at, major, index) + entry_width(major),
        }),
{
    assert(0 <= index * entry_width(major)) by (nonlinear_arith)
        requires
            0 <= index,
            0 <= entry_width(major),
    ;
}

/// The directory of the first `count` records, where each of them decodes and
/// no two of them have the same hash: it finds each record under its hash and
/// nothing else, and decoding ends with the last of them.
pub proof fn distinct_records_are_all_entered(
    bytes: Seq<u8>,
    at: int,
    major: u8,
    minor: u8,
    count: nat,
)
    requires
        0 <= at,
        forall|i: int| 0 <= i < count ==> #[trigger] record_decodes(bytes, at, major, i),
        forall|i: int, j: int|
            0 <= i < j < count ==> #[trigger] record_hash(bytes, at, major, i) != #[trigger] record_hash(
                bytes,
                at,
                major,
                j,
            ),
    ensures
        decode_entries(bytes, at, major, minor, count) is Value,
        decode_entries(bytes, at, major, minor, count).end() == record_at(at, major, count as int),
        forall|i: int|
            0 <= i < count ==> {
                let hash = #[trigger] record_hash(bytes, at, major, i);
                let directory = decode_entries(bytes, at, major, minor, count)->value;
                directory.contains_key(hash) && directory[hash] == entry_at(
                    bytes,
                    record_at(at, major, i),
                    major,
                    minor,
                )
            },
        forall|hash: u64| #[trigger]
            decode_entries(bytes, at, major, minor, count)->value.contains_key(hash) ==> exists|
                i: int,
            |
                0 <= i < count && #[trigger] record_hash(bytes, at, major, i) == hash,
    decreases count,
{
    if count > 0 {
        let last = count - 1;
        distinct_records_are_all_entered(bytes, at, major, minor, last as nat);
        whole_records_with_known_format_decode(bytes, at, major, minor, last);
        lemma_next_record(bytes, at, major, minor, last as nat, count);
        let directory = decode_entries(bytes, at, major, minor, last as nat)->value;
        let next = record_at(at, major, last);
        assert(record_at(at, major, count as int) == next + entry_width(major)) by (nonlinear_arith)
            requires
                next == at + last * entry_width(major),
                count == last + 1,
                record_at(at, major, count as int) == at + count * entry_width(major),
        ;
        let entry = entry_at(bytes, next, major, minor);
        assert(entry.xxhash == record_hash(bytes, at, major, last));
        if directory.contains_key(entry.xxhash) {
            let i = choose|i: int|
                0 <= i < last && #[trigger] record_hash(bytes, at, major, i) == entry.xxhash;
            assert(record_hash(bytes, at, major, i) != record_hash(bytes, at, major, last));
        }
        let grown = directory.insert(entry.xxhash, entry);
        assert forall|i: int| 0 <= i < count implies {
            let hash = #[trigger] record_hash(bytes, at, major, i);
            grown.contains_key(hash) && grown[hash] == entry_at(
                bytes,
                record_at(at, major, i),
                major,
                minor,
            )
        } by {
            if i < last {
                assert(record_hash(bytes, at, major, i) != record_hash(bytes, at, major, last));
            }
        }
        assert forall|hash: u64| #[trigger] grown.contains_key(hash) implies exists|i: int|
            0 <= i < count && #[trigger] record_hash(bytes, at, major, i) == hash by {
            if hash == entry.xxhash {
                assert(record_hash(bytes, at, major, last) == hash);
            } else {
                let i = choose|i: int|
                    0 <= i < last && #[trigger] record_hash(bytes, at, major, i) == hash;
                assert(0 <= i < count && record_hash(bytes, at, major, i) == hash);
            }
        }
    }
}

/// The first record that does not decode ends the decoding as decoding that
/// record ends: with the same failure, at the same index.
pub proof fn first_record_that_fails_is_refused(
    bytes: Seq<u8>,
    at: int,
    major: u8,
    minor: u8,
    count: nat,
    index: int,
)
    requires
        0 <= at,
        0 <= index < count,
        forall|i: int| 0 <= i < index ==> #[trigger] record_decodes(bytes, at, major, i),
        forall|i: int, j: int|
            0 <= i < j < index ==> #[trigger] record_hash(bytes, at, major, i) != #[trigger] record_hash(
                bytes,
                at,
                major,
                j,
            ),
        !record_decodes(bytes, at, major, index),
    ensures
        decode_entry(bytes, record_at(at, major, index), major, minor) is Failed,
        decode_entries(bytes, at, major, minor, count) == (Decoded::<Map<u64, EntryView>>::Failed {
            failure: decode_entry(bytes, record_at(at, major, index), major, minor)->failure,
            end: decode_entry(bytes, record_at(at, major, index), major, minor).end(),
        }),
{
    distinct_records_are_all_entered(bytes, at, major, minor, index as nat);
    whole_records_with_known_format_decode(bytes, at, major, minor, index);
    lemma_next_record(bytes, at, major, minor, index as nat, count);
}

/// The first record that repeats the hash of a record before it ends the
/// decoding with that hash, right after it is read: no record after it is
/// looked at, however many the header announces.
pub proof fn first_repeated_hash_is_refused(
    bytes: Seq<u8>,
    at: int,
    major: u8,
    minor: u8,
    count: nat,
    first: int,
    second: int,
)
    requires
        0 <= at,
        0 <= first < second < count,
        forall|i: int| 0 <= i <= second ==> #[trigger] record_decodes(bytes, at, major, i),
        forall|i: int, j: int|
            0 <= i < j < second ==> #[trigger] record_hash(bytes, at, major, i) != #[trigger] record_hash(
                bytes,
                at,
                major,
                j,
            ),
        record_hash(bytes, at, major, first) == record_hash(bytes, at, major, second),
    ensures
        decode_entries(bytes, at, major, minor, count) == (Decoded::<Map<u64, EntryView>>::Failed {
            failure: Failure::DuplicateEntry(record_hash(bytes, at, major, second)),
            end: record_at(at, major, second + 1),
        }),
{
    distinct_records_are_all_entered(bytes, at, major, minor, second as nat);
    whole_records_with_known_format_decode(bytes, at, major, minor, second);
    lemma_next_record(bytes, at, major, minor, second as nat, count);
    let directory = decode_entries(bytes, at, major, minor, second as nat)->value;
    assert(directory.contains_key(record_hash(bytes, at, major, first)));
    assert(record_at(at, major, second + 1) == record_at(at, major, second) + entry_width(major))
        by (nonlinear_arith)
        requires
            record_at(at, major, second) == at + second * entry_width(major),
            record_at(at, major, second + 1) == at + (second + 1) * entry_width(major),
    ;
}

/// Two records in a row with the same hash, at the start of a directory that
/// announces them, end the decoding with that hash right after the second.
pub proof fn repeated_hash_is_refused(bytes: Seq<u8>, at: int, major: u8, minor: u8, count: nat)
    requires
        0 <= at,
        count >= 2,
        record_decodes(bytes, at, major, 0),
        record_decodes(bytes, at, major, 1),
        record_hash(bytes, at, major, 0) == record_hash(bytes, at, major, 1),
    ensures
        decode_entries(bytes, at, major, minor, count) == (Decoded::<Map<u64, EntryView>>::Failed {
            failure: Failure::DuplicateEntry(record_hash(bytes, at, major, 0)),
            end: at + 2 * entry_width(major),
        }),
{
    first_repeated_hash_is_refused(bytes, at, major, minor, count, 0, 1);
}

/// A directory that decodes finds every entry under the entry's own hash, and
/// holds as many entries as records were read: none has taken the place of
/// another.
pub proof fn directory_is_keyed_by_hash(bytes: Seq<u8>, at: int, major: u8, minor: u8, count: nat)
    requires
        decode_entries(bytes, at, major, minor, count) is Value,
    ensures
        forall|hash: u64| #[trigger]
            decode_entries(bytes, at, major, minor, count)->value.contains_key(hash)
                ==> decode_entries(bytes, at, major, minor, count)->value[hash].xxhash == hash,
        decode_entries(bytes, at, major, minor, count)->value.dom().finite(),
        decode_entries(bytes, at, major, minor, count)->value.len() == count,
        decode_entries(bytes, at, major, minor, count).end() == at + count * entry_width(major),
    decreases count,
{
    if count > 0 {
        directory_is_keyed_by_hash(bytes, at, major, minor, (count - 1) as nat);
        assert(at + count * entry_width(major) == at + (count - 1) * entry_width(major)
            + entry_width(major)) by (nonlinear_arith);
    } else {
        assert(at + count * entry_width(major) == at) by (nonlinear_arith)
            requires
                count == 0,
        ;
    }
}

/// An archive that decodes finds every entry under the entry's own hash.
pub proof fn archive_is_keyed_by_hash(bytes: Seq<u8>, at: int)
    requires
        decode_archive(bytes, at) is Value,
    ensures
        decode_archive(bytes, at)->value.well_formed(),
{
    let (major, minor) = decode_version(bytes, at)->value;
    let signature_at = decode_version(bytes, at).end();
    let count_at = decode_signature(bytes, signature_at, major).end();
    let count = decode_entry_count(bytes, count_at, major)->value;
    let directory_at = decode_entry_count(bytes, count_at, major).end();
    directory_is_keyed_by_hash(bytes, directory_at, major, minor, count as nat);
}

/// Decoding is a function of the bytes: two decodings of the same bytes from
/// the same index stop at the same index, and both give an archive with the
/// same signature and the same directory, or both give an error that says the
/// same.
pub proof fn decoding_is_deterministic(
    bytes: Seq<u8>,
    at: int,
    first: Result<Wad, WadError>,
    first_end: int,
    second: Result<Wad, WadError>,
    second_end: int,
)
    requires
        decode_archive(bytes, at).is_met_by(first, first_end),
        decode_archive(bytes, at).is_met_by(second, second_end),
    ensures
        first_end == second_end,
        first is Ok <==> second is Ok,
        first is Ok ==> first->Ok_0@ == second->Ok_0@,
        first is Err ==> first->Err_0@ == second->Err_0@,
{
}

} // verus!
