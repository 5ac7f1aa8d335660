use wrapper::archive::{Archive, ArchiveRecord};
use wrapper::errors::WrapperError;
use wrapper::format::{decode_archive, encode_archive};

fn record(path: &str, mode: u32, content: &[u8]) -> ArchiveRecord {
    ArchiveRecord { relative_path: path.to_string(), mode_bits: mode, content: content.to_vec() }
}

fn sample() -> Archive {
    Archive {
        records: vec![
            record("bin/demo", 0o755, b"#!/bin/sh\necho hi"),
            record("lib/empty", 0o644, b""),
            record("etc/zero-mode", 0, b"\x00\x01\x02"),
            record("share/\u{e9}t\u{e9}/\u{65e5}\u{672c}", 0o600, "caf\u{e9}".as_bytes()),
        ],
    }
}

#[test]
fn encodes_a_record_field_by_field() {
    let archive = Archive { records: vec![record("a", 0o755, &[1, 2])] };
    let expected: Vec<u8> = vec![
        0, 0, 0, 0, 0, 0, 0, 1, // length of the path
        0x61, // "a"
        0x00, 0x00, 0x01, 0xED, // 0o755
        0, 0, 0, 0, 0, 0, 0, 2, // length of the content
        1, 2,
    ];
    assert_eq!(encode_archive(&archive), expected);
}

#[test]
fn encodes_numbers_big_endian() {
    let content = vec![7u8; 0x0102];
    let archive = Archive { records: vec![record("p", 0xDEAD_BEEF, &content)] };
    let bytes = encode_archive(&archive);
    assert_eq!(&bytes[9..13], &[0xDE, 0xAD, 0xBE, 0xEF]);
    assert_eq!(&bytes[13..21], &[0, 0, 0, 0, 0, 0, 0x01, 0x02]);
    assert_eq!(bytes.len(), 8 + 1 + 4 + 8 + 0x0102);
}

#[test]
fn an_archive_without_records_is_no_bytes() {
    let archive = Archive { records: vec![] };
    assert_eq!(encode_archive(&archive), Vec::<u8>::new());
    assert_eq!(decode_archive(&[]), Ok(Archive { records: vec![] }));
}

#[test]
fn decoding_gives_back_what_was_encoded() {
    let bytes = encode_archive(&sample());
    assert_eq!(decode_archive(&bytes), Ok(sample()));
}

#[test]
fn round_trip_keeps_empty_content_and_zero_mode() {
    let archive = Archive { records: vec![record("nothing", 0, b"")] };
    let decoded = decode_archive(&encode_archive(&archive)).unwrap();
    assert_eq!(decoded.records.len(), 1);
    assert_eq!(decoded.records[0].relative_path, "nothing");
    assert_eq!(decoded.records[0].mode_bits, 0);
    assert_eq!(decoded.records[0].content, Vec::<u8>::new());
}

#[test]
fn round_trip_keeps_the_order_and_repeated_paths() {
    let archive = Archive {
        records: vec![record("same", 0o644, b"first"), record("same", 0o600, b"second")],
    };
    assert_eq!(decode_archive(&encode_archive(&archive)), Ok(archive));
}

#[test]
fn decodes_a_record_written_by_hand() {
    let bytes: Vec<u8> = vec![
        0, 0, 0, 0, 0, 0, 0, 3, b'x', b'/', b'y', 0, 0, 0x81, 0xA4, 0, 0, 0, 0, 0, 0, 0, 1, 0xFF,
    ];
    assert_eq!(decode_archive(&bytes), Ok(Archive { records: vec![record("x/y", 0o100644, &[0xFF])] }));
}

#[test]
fn every_truncation_of_an_archive_is_refused() {
    let bytes = encode_archive(&Archive { records: vec![record("bin/demo", 0o755, b"hello")] });
    for cut in 1..bytes.len() {
        assert_eq!(
            decode_archive(&bytes[..cut]),
            Err(WrapperError::PayloadDecompressFailed),
            "cut at {}",
            cut
        );
    }
}

#[test]
fn bytes_behind_the_last_record_are_refused() {
    let mut bytes = encode_archive(&sample());
    bytes.push(0);
    assert_eq!(decode_archive(&bytes), Err(WrapperError::PayloadDecompressFailed));
}

#[test]
fn a_path_length_past_the_end_is_refused() {
    let mut bytes = encode_archive(&Archive { records: vec![record("ab", 1, b"c")] });
    bytes[7] = 200;
    assert_eq!(decode_archive(&bytes), Err(WrapperError::PayloadDecompressFailed));
}

#[test]
fn a_content_length_past_the_end_is_refused() {
    let mut bytes = encode_archive(&Archive { records: vec![record("ab", 1, b"c")] });
    bytes[8 + 2 + 4 + 7] = 2;
    assert_eq!(decode_archive(&bytes), Err(WrapperError::PayloadDecompressFailed));
}

#[test]
fn a_huge_length_is_refused() {
    let mut bytes = encode_archive(&Archive { records: vec![record("ab", 1, b"c")] });
    for b in bytes.iter_mut().take(8) {
        *b = 0xFF;
    }
    assert_eq!(decode_archive(&bytes), Err(WrapperError::PayloadDecompressFailed));
}

#[test]
fn a_path_that_is_not_utf8_is_refused() {
    let bytes: Vec<u8> =
        vec![0, 0, 0, 0, 0, 0, 0, 2, 0xC3, 0x28, 0, 0, 0, 0, 0, 0, 0, 0, 0, 0, 0, 0];
    assert_eq!(decode_archive(&bytes), Err(WrapperError::PayloadDecompressFailed));
}

#[test]
fn a_shortened_content_length_leaves_bytes_over_and_is_refused() {
    let mut bytes = encode_archive(&Archive { records: vec![record("ab", 1, b"cd")] });
    bytes[8 + 2 + 4 + 7] = 1;
    assert_eq!(decode_archive(&bytes), Err(WrapperError::PayloadDecompressFailed));
}
