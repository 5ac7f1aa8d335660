//! The archive as bytes.
//!
//! An archive is its records, one after the other, with nothing before,
//! between or behind them. A record is
//!
//! ```text
//! length of the path in bytes    8 bytes, big-endian
//! path                           UTF-8
//! mode                           4 bytes, big-endian
//! length of the content          8 bytes, big-endian
//! content
//! ```
//!
//! Every number is big-endian, so the bytes mean the same on every host. The
//! empty sequence of bytes is the archive without records.

use vstd::prelude::*;
use vstd::slice::{slice_subrange, slice_to_vec};
use vstd::utf8::{decode_utf8, encode_utf8, valid_utf8};
use crate::archive::{Archive, ArchiveRecord, RecordModel};
use crate::errors::{ErrorModel, WrapperError};

verus! {

/// The number of values that `width` bytes can spell: 256 to the power of
/// `width`.
pub open spec fn be_limit(width: nat) -> nat
    decreases width,
{
    if width == 0 {
        1
    } else {
        256 * be_limit((width - 1) as nat)
    }
}

/// The number that `bytes` spell, most significant byte first.
pub open spec fn be_value(bytes: Seq<u8>) -> nat
    decreases bytes.len(),
{
    if bytes.len() == 0 {
        0
    } else {
        be_value(bytes.drop_last()) * 256 + bytes.last() as nat
    }
}

/// `value` spelled in `width` bytes, most significant byte first.
pub open spec fn be_bytes(value: nat, width: nat) -> Seq<u8>
    decreases width,
{
    if width == 0 {
        Seq::empty()
    } else {
        be_bytes(value / 256, (width - 1) as nat).push((value % 256) as u8)
    }
}

pub proof fn lemma_be_bytes_len(value: nat, width: nat)
    ensures
        be_bytes(value, width).len() == width,
    decreases width,
{
    if width > 0 {
        lemma_be_bytes_len(value / 256, (width - 1) as nat);
    }
}

pub proof fn lemma_be_limit_grows(narrow: nat, wide: nat)
    requires
        narrow <= wide,
    ensures
        0 < be_limit(narrow) <= be_limit(wide),
    decreases wide,
{
    if narrow < wide {
        lemma_be_limit_grows(narrow, (wide - 1) as nat);
    } else if wide > 0 {
        lemma_be_limit_grows((narrow - 1) as nat, (wide - 1) as nat);
    }
}

/// Four bytes spell the numbers of a `u32`, eight those of a `u64`.
pub proof fn lemma_be_limits()
    ensures
        be_limit(4) == 0x1_0000_0000,
        be_limit(8) == 0x1_0000_0000_0000_0000,
{
    reveal_with_fuel(be_limit, 9);
}

/// What bytes spell fits their width.
pub proof fn lemma_be_value_bound(bytes: Seq<u8>)
    ensures
        be_value(bytes) < be_limit(bytes.len()),
    decreases bytes.len(),
{
    if bytes.len() > 0 {
        lemma_be_value_bound(bytes.drop_last());
    }
}

/// Spelling a number that fits the width and reading it again gives the
/// number.
pub proof fn lemma_be_value_of_bytes(value: nat, width: nat)
    requires
        value < be_limit(width),
    ensures
        be_value(be_bytes(value, width)) == value,
    decreases width,
{
    if width > 0 {
        let front = be_bytes(value / 256, (width - 1) as nat);
        lemma_be_value_of_bytes(value / 256, (width - 1) as nat);
        assert(be_bytes(value, width).drop_last() =~= front);
    }
}

/// Reading bytes and spelling the number in as many bytes gives the bytes.
pub proof fn lemma_be_bytes_of_value(bytes: Seq<u8>)
    ensures
        be_bytes(be_value(bytes), bytes.len()) == bytes,
    decreases bytes.len(),
{
    if bytes.len() > 0 {
        lemma_be_bytes_of_value(bytes.drop_last());
        let value = be_value(bytes);
        assert(value / 256 == be_value(bytes.drop_last()));
        assert(value % 256 == bytes.last() as nat);
        assert(be_bytes(value, bytes.len()) =~= bytes);
    }
}

/// Reads the `width` bytes of `bytes` that start at `at` as one number.
fn read_be(bytes: &[u8], at: usize, width: usize) -> (value: u64)
    requires
        width <= 8,
        at + width <= bytes@.len(),
    ensures
        value == be_value(bytes@.subrange(at as int, at + width)),
{
    let total: usize = bytes.len();
    let mut value: u64 = 0;
    let mut k: usize = 0;
    assert(bytes@.subrange(at as int, at as int).len() == 0);
    while k < width
        invariant
            total == bytes@.len(),
            width <= 8,
            at + width <= bytes@.len(),
            k <= width,
            value == be_value(bytes@.subrange(at as int, at + k)),
        decreases width - k,
    {
        let ghost read = bytes@.subrange(at as int, at + k + 1);
        proof {
            assert(read.drop_last() =~= bytes@.subrange(at as int, at + k));
            assert(read.last() == bytes@[at + k]);
            lemma_be_value_bound(read);
            lemma_be_limit_grows(read.len(), 8);
            lemma_be_limits();
        }
        value = value * 256 + bytes[at + k] as u64;
        k += 1;
    }
    value
}

/// Appends `value`, spelled in `width` bytes, to `out`.
fn push_be(out: &mut Vec<u8>, value: u64, width: usize)
    requires
        width <= 8,
    ensures
        final(out)@ == old(out)@ + be_bytes(value as nat, width as nat),
    decreases width,
{
    if width > 0 {
        push_be(out, value / 256, (width - 1) as usize);
        out.push((value % 256) as u8);
        assert(out@ =~= old(out)@ + be_bytes(value as nat, width as nat));
    } else {
        assert(out@ =~= old(out)@ + be_bytes(value as nat, width as nat));
    }
}

/// Whether both lengths of `record` can be spelled in their eight bytes.
pub open spec fn record_is_encodable(record: RecordModel) -> bool {
    &&& encode_utf8(record.relative_path).len() < be_limit(8)
    &&& record.content.len() < be_limit(8)
}

/// Whether every record of `archive` can be written down.
pub open spec fn is_encodable(archive: Seq<RecordModel>) -> bool {
    forall|i: int| 0 <= i < archive.len() ==> record_is_encodable(#[trigger] archive[i])
}

/// The bytes of one record.
pub open spec fn record_bytes(record: RecordModel) -> Seq<u8> {
    let path = encode_utf8(record.relative_path);
    be_bytes(path.len(), 8) + path + be_bytes(record.mode_bits as nat, 4) + be_bytes(
        record.content.len(),
        8,
    ) + record.content
}

/// The bytes of an archive: those of its records, in order.
pub open spec fn archive_bytes(archive: Seq<RecordModel>) -> Seq<u8>
    decreases archive.len(),
{
    if archive.len() == 0 {
        Seq::empty()
    } else {
        record_bytes(archive[0]) + archive_bytes(archive.drop_first())
    }
}

/// Whether `bytes` are what `archive` is written down as.
pub open spec fn is_encoding_of(bytes: Seq<u8>, archive: Seq<RecordModel>) -> bool {
    is_encodable(archive) && archive_bytes(archive) == bytes
}

/// The archive that `bytes` are the encoding of; `None` where they are the
/// encoding of none. By [`lemma_encoding_is_unique`] there is at most one.
pub open spec fn decoded_archive(bytes: Seq<u8>) -> Option<Seq<RecordModel>> {
    if exists|archive: Seq<RecordModel>| is_encoding_of(bytes, archive) {
        Some(choose|archive: Seq<RecordModel>| is_encoding_of(bytes, archive))
    } else {
        None
    }
}

/// The record at the front of `bytes` and the number of bytes it takes.
spec fn first_record(bytes: Seq<u8>) -> Option<(RecordModel, int)> {
    if bytes.len() < 8 {
        None
    } else {
        let path_len = be_value(bytes.subrange(0, 8)) as int;
        if bytes.len() - 8 < path_len {
            None
        } else {
            let path = bytes.subrange(8, 8 + path_len);
            if !valid_utf8(path) || bytes.len() - 8 - path_len < 12 {
                None
            } else {
                let mode = be_value(bytes.subrange(8 + path_len, 12 + path_len));
                let content_len = be_value(bytes.subrange(12 + path_len, 20 + path_len)) as int;
                if bytes.len() - 20 - path_len < content_len {
                    None
                } else {
                    Some(
                        (
                            RecordModel {
                                relative_path: decode_utf8(path),
                                mode_bits: mode as u32,
                                content: bytes.subrange(
                                    20 + path_len,
                                    20 + path_len + content_len,
                                ),
                            },
                            20 + path_len + content_len,
                        ),
                    )
                }
            }
        }
    }
}

/// The records that `bytes` hold from front to back, if they hold nothing
/// else.
spec fn parsed(bytes: Seq<u8>) -> Option<Seq<RecordModel>>
    decreases bytes.len(),
{
    if bytes.len() == 0 {
        Some(Seq::empty())
    } else {
        match first_record(bytes) {
            None => None,
            Some((record, used)) => if 0 < used <= bytes.len() {
                match parsed(bytes.skip(used)) {
                    None => None,
                    Some(rest) => Some(seq![record] + rest),
                }
            } else {
                None
            },
        }
    }
}

proof fn lemma_record_bytes_layout(record: RecordModel)
    ensures
        ({
            let path = encode_utf8(record.relative_path);
            let bytes = record_bytes(record);
            let n = path.len() as int;
            let m = record.content.len() as int;
            &&& bytes.len() == 20 + n + m
            &&& bytes.subrange(0, 8) == be_bytes(path.len(), 8)
            &&& bytes.subrange(8, 8 + n) == path
            &&& bytes.subrange(8 + n, 12 + n) == be_bytes(record.mode_bits as nat, 4)
            &&& bytes.subrange(12 + n, 20 + n) == be_bytes(record.content.len(), 8)
            &&& bytes.subrange(20 + n, 20 + n + m) == record.content
        }),
{
    let path = encode_utf8(record.relative_path);
    let bytes = record_bytes(record);
    let n = path.len() as int;
    let m = record.content.len() as int;
    lemma_be_bytes_len(path.len(), 8);
    lemma_be_bytes_len(record.mode_bits as nat, 4);
    lemma_be_bytes_len(record.content.len(), 8);
    assert(bytes.subrange(0, 8) =~= be_bytes(path.len(), 8));
    assert(bytes.subrange(8, 8 + n) =~= path);
    assert(bytes.subrange(8 + n, 12 + n) =~= be_bytes(record.mode_bits as nat, 4));
    assert(bytes.subrange(12 + n, 20 + n) =~= be_bytes(record.content.len(), 8));
    assert(bytes.subrange(20 + n, 20 + n + m) =~= record.content);
}

/// A record read from the front of `bytes` is written down as exactly the
/// bytes it was read from.
proof fn lemma_first_record_sound(bytes: Seq<u8>)
    requires
        first_record(bytes) is Some,
    ensures
        ({
            let (record, used) = first_record(bytes)->0;
            &&& record_is_encodable(record)
            &&& 20 <= used <= bytes.len()
            &&& bytes.take(used) == record_bytes(record)
        }),
{
    let (record, used) = first_record(bytes)->0;
    let n = be_value(bytes.subrange(0, 8)) as int;
    let path = bytes.subrange(8, 8 + n);
    let mode_field = bytes.subrange(8 + n, 12 + n);
    let len_field = bytes.subrange(12 + n, 20 + n);
    let m = be_value(len_field) as int;
    lemma_be_limits();
    lemma_be_value_bound(bytes.subrange(0, 8));
    lemma_be_value_bound(mode_field);
    lemma_be_value_bound(len_field);
    vstd::utf8::decode_utf8_encode_utf8(path);
    assert(encode_utf8(record.relative_path) == path);
    lemma_be_bytes_of_value(bytes.subrange(0, 8));
    lemma_be_bytes_of_value(mode_field);
    lemma_be_bytes_of_value(len_field);
    assert(record.mode_bits as nat == be_value(mode_field));
    assert(record.content.len() == m);
    assert(bytes.take(used) =~= bytes.subrange(0, 8) + path + mode_field + len_field
        + record.content);
}

/// The bytes of a record, with anything behind them, are read as that record.
proof fn lemma_first_record_complete(record: RecordModel, behind: Seq<u8>)
    requires
        record_is_encodable(record),
    ensures
        first_record(record_bytes(record) + behind) == Some(
            (record, record_bytes(record).len() as int),
        ),
{
    let own = record_bytes(record);
    let bytes = own + behind;
    let path = encode_utf8(record.relative_path);
    let n = path.len() as int;
    let m = record.content.len() as int;
    lemma_record_bytes_layout(record);
    lemma_be_limits();
    assert(bytes.subrange(0, 8) =~= own.subrange(0, 8));
    assert(bytes.subrange(8, 8 + n) =~= own.subrange(8, 8 + n));
    assert(bytes.subrange(8 + n, 12 + n) =~= own.subrange(8 + n, 12 + n));
    assert(bytes.subrange(12 + n, 20 + n) =~= own.subrange(12 + n, 20 + n));
    assert(bytes.subrange(20 + n, 20 + n + m) =~= own.subrange(20 + n, 20 + n + m));
    lemma_be_value_of_bytes(path.len(), 8);
    lemma_be_value_of_bytes(record.mode_bits as nat, 4);
    lemma_be_value_of_bytes(record.content.len(), 8);
    vstd::utf8::encode_utf8_valid_utf8(record.relative_path);
    vstd::utf8::encode_utf8_decode_utf8(record.relative_path);
    let (found, used) = first_record(bytes)->0;
    assert(found.relative_path == record.relative_path);
    assert(found.mode_bits == record.mode_bits);
    assert(found.content == record.content);
}

proof fn lemma_parsed_sound(bytes: Seq<u8>)
    requires
        parsed(bytes) is Some,
    ensures
        is_encoding_of(bytes, parsed(bytes)->0),
    decreases bytes.len(),
{
    if bytes.len() > 0 {
        let (record, used) = first_record(bytes)->0;
        let rest = parsed(bytes.skip(used))->0;
        lemma_first_record_sound(bytes);
        lemma_parsed_sound(bytes.skip(used));
        let archive = seq![record] + rest;
        assert(archive.drop_first() =~= rest);
        assert(archive[0] == record);
        assert(bytes =~= bytes.take(used) + bytes.skip(used));
        assert forall|i: int| 0 <= i < archive.len() implies record_is_encodable(
            #[trigger] archive[i],
        ) by {
            if i > 0 {
                assert(archive[i] == rest[i - 1]);
            }
        }
        assert(archive_bytes(archive) =~= bytes);
    } else {
        assert(bytes =~= archive_bytes(Seq::empty()));
    }
}

proof fn lemma_parsed_complete(archive: Seq<RecordModel>)
    requires
        is_encodable(archive),
    ensures
        parsed(archive_bytes(archive)) == Some(archive),
    decreases archive.len(),
{
    if archive.len() > 0 {
        let record = archive[0];
        let rest = archive.drop_first();
        let own = record_bytes(record);
        let behind = archive_bytes(rest);
        let bytes = own + behind;
        assert(record_is_encodable(record));
        assert forall|i: int| 0 <= i < rest.len() implies record_is_encodable(
            #[trigger] rest[i],
        ) by {
            assert(rest[i] == archive[i + 1]);
        }
        lemma_record_bytes_layout(record);
        lemma_first_record_complete(record, behind);
        lemma_parsed_complete(rest);
        assert(bytes.skip(own.len() as int) =~= behind);
        assert(seq![record] + rest =~= archive);
    }
}

/// No two archives are written down as the same bytes.
pub proof fn lemma_encoding_is_unique(one: Seq<RecordModel>, other: Seq<RecordModel>)
    requires
        is_encodable(one),
        is_encodable(other),
        archive_bytes(one) == archive_bytes(other),
    ensures
        one == other,
{
    lemma_parsed_complete(one);
    lemma_parsed_complete(other);
}

proof fn lemma_decoded_is_parsed(bytes: Seq<u8>)
    ensures
        decoded_archive(bytes) == parsed(bytes),
{
    if parsed(bytes) is Some {
        lemma_parsed_sound(bytes);
        let found = parsed(bytes)->0;
        assert(is_encoding_of(bytes, found));
        let chosen = choose|archive: Seq<RecordModel>| is_encoding_of(bytes, archive);
        lemma_encoding_is_unique(found, chosen);
    } else {
        if exists|archive: Seq<RecordModel>| is_encoding_of(bytes, archive) {
            let chosen = choose|archive: Seq<RecordModel>| is_encoding_of(bytes, archive);
            lemma_parsed_complete(chosen);
        }
    }
}

/// Writing an archive down and reading the bytes again gives the archive:
/// every path, every mode and every content, an empty content and a mode of
/// zero included.
pub proof fn lemma_round_trip(archive: Seq<RecordModel>)
    requires
        is_encodable(archive),
    ensures
        decoded_archive(archive_bytes(archive)) == Some(archive),
{
    lemma_parsed_complete(archive);
    lemma_decoded_is_parsed(archive_bytes(archive));
}

/// Bytes that are read as an archive are that archive written down, byte
/// for byte: nothing is skipped and nothing is left over.
pub proof fn lemma_decoded_is_encoding(bytes: Seq<u8>)
    requires
        decoded_archive(bytes) is Some,
    ensures
        is_encoding_of(bytes, decoded_archive(bytes)->0),
{
}

/// `String::from_utf8`: the text that `bytes` spell in UTF-8, and `None`
/// exactly where they spell none.
#[verifier::external_body]
fn string_from_utf8(bytes: Vec<u8>) -> (text: Option<String>)
    ensures
        match text {
            Some(read) => valid_utf8(bytes@) && read@ == decode_utf8(bytes@),
            None => !valid_utf8(bytes@),
        },
{
    match String::from_utf8(bytes) {
        Ok(text) => Some(text),
        Err(_) => None,
    }
}

/// Reads the record that starts at `at`, and says where the next one starts.
fn decode_record(bytes: &[u8], at: usize) -> (found: Option<(ArchiveRecord, usize)>)
    requires
        at <= bytes@.len(),
    ensures
        match found {
            Some((record, next)) => at < next <= bytes@.len() && first_record(
                bytes@.skip(at as int),
            ) == Some((record@, next - at)),
            None => first_record(bytes@.skip(at as int)) is None,
        },
{
    let total: usize = bytes.len();
    let ghost rest = bytes@.skip(at as int);
    if total - at < 8 {
        return None;
    }
    let path_len: u64 = read_be(bytes, at, 8);
    assert(bytes@.subrange(at as int, at + 8) =~= rest.subrange(0, 8));
    let path_start: usize = at + 8;
    if path_len > (total - path_start) as u64 {
        return None;
    }
    let path_end: usize = path_start + path_len as usize;
    let path_bytes = slice_to_vec(slice_subrange(bytes, path_start, path_end));
    assert(path_bytes@ =~= rest.subrange(8, 8 + path_len));
    let relative_path = match string_from_utf8(path_bytes) {
        Some(text) => text,
        None => { return None; },
    };
    if total - path_end < 12 {
        return None;
    }
    let mode: u64 = read_be(bytes, path_end, 4);
    assert(bytes@.subrange(path_end as int, path_end + 4) =~= rest.subrange(
        8 + path_len,
        12 + path_len,
    ));
    proof {
        lemma_be_value_bound(rest.subrange(8 + path_len, 12 + path_len));
        lemma_be_limits();
    }
    let content_len: u64 = read_be(bytes, path_end + 4, 8);
    assert(bytes@.subrange(path_end + 4, path_end + 12) =~= rest.subrange(
        12 + path_len,
        20 + path_len,
    ));
    let content_start: usize = path_end + 12;
    if content_len > (total - content_start) as u64 {
        return None;
    }
    let content_end: usize = content_start + content_len as usize;
    let content = slice_to_vec(slice_subrange(bytes, content_start, content_end));
    assert(content@ =~= rest.subrange(20 + path_len, 20 + path_len + content_len));
    Some((ArchiveRecord { relative_path, mode_bits: mode as u32, content }, content_end))
}

/// Reads an archive from its bytes. Bytes that are not an archive written
/// down (a field cut short, a length that reaches past the end, a path that
/// is not UTF-8) are refused as `PayloadDecompressFailed`, and no record of
/// them is handed out.
pub fn decode_archive(bytes: &[u8]) -> (decoded: Result<Archive, WrapperError>)
    ensures
        match decoded {
            Ok(archive) => decoded_archive(bytes@) == Some(archive@),
            Err(error) => error@ == ErrorModel::PayloadDecompressFailed && decoded_archive(bytes@)
                is None,
        },
{
    let total: usize = bytes.len();
    let mut records: Vec<ArchiveRecord> = Vec::new();
    let mut at: usize = 0;
    proof {
        lemma_decoded_is_parsed(bytes@);
        assert(bytes@.skip(0) =~= bytes@);
        assert(crate::archive::record_models(records@) =~= Seq::empty());
        if parsed(bytes@) is Some {
            assert(Seq::<RecordModel>::empty() + parsed(bytes@)->0 =~= parsed(bytes@)->0);
        }
    }
    while at < total
        invariant
            total == bytes@.len(),
            at <= total,
            decoded_archive(bytes@) == parsed(bytes@),
            parsed(bytes@) == (match parsed(bytes@.skip(at as int)) {
                Some(rest) => Some(crate::archive::record_models(records@) + rest),
                None => None,
            }),
        decreases total - at,
    {
        let ghost before = crate::archive::record_models(records@);
        match decode_record(bytes, at) {
            Some((record, next)) => {
                proof {
                    assert(bytes@.skip(at as int).skip(next - at) =~= bytes@.skip(next as int));
                    if parsed(bytes@.skip(next as int)) is Some {
                        let rest = parsed(bytes@.skip(next as int))->0;
                        assert(before + (seq![record@] + rest) =~= before.push(record@) + rest);
                    }
                }
                records.push(record);
                assert(crate::archive::record_models(records@) =~= before.push(record@));
                at = next;
            },
            None => {
                return Err(WrapperError::PayloadDecompressFailed);
            },
        }
    }
    proof {
        assert(bytes@.skip(at as int).len() == 0);
        assert(crate::archive::record_models(records@) + Seq::<RecordModel>::empty()
            =~= crate::archive::record_models(records@));
    }
    Ok(Archive { records })
}

/// Writes an archive down.
pub fn encode_archive(archive: &Archive) -> (bytes: Vec<u8>)
    ensures
        bytes@ == archive_bytes(archive@),
        is_encodable(archive@),
{
    let mut bytes: Vec<u8> = Vec::new();
    let count: usize = archive.records.len();
    let mut i: usize = 0;
    let ghost all = archive@;
    proof {
        assert(all.skip(0) =~= all);
        assert(bytes@ + archive_bytes(all) =~= archive_bytes(all));
    }
    while i < count
        invariant
            count == archive.records@.len(),
            i <= count,
            all == archive@,
            bytes@ + archive_bytes(all.skip(i as int)) == archive_bytes(all),
            forall|k: int| 0 <= k < i ==> record_is_encodable(#[trigger] all[k]),
        decreases count - i,
    {
        let record = &archive.records[i];
        let path = record.relative_path.as_str().as_bytes();
        let ghost before = bytes@;
        proof {
            lemma_be_limits();
            assert(all.skip(i as int)[0] == record@);
            assert(all.skip(i as int).drop_first() =~= all.skip(i + 1));
            assert(all[i as int] == record@);
        }
        push_be(&mut bytes, path.len() as u64, 8);
        bytes.extend_from_slice(path);
        push_be(&mut bytes, record.mode_bits as u64, 4);
        push_be(&mut bytes, record.content.len() as u64, 8);
        bytes.extend_from_slice(record.content.as_slice());
        assert(bytes@ =~= before + record_bytes(record@));
        assert(bytes@ + archive_bytes(all.skip(i + 1)) =~= before + archive_bytes(
            all.skip(i as int),
        ));
        i += 1;
    }
    assert(all.skip(count as int).len() == 0);
    assert(bytes@ =~= archive_bytes(all));
    bytes
}

} // verus!
