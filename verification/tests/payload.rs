use wrapper::archive::{Archive, ArchiveRecord};
use wrapper::errors::WrapperError;
use wrapper::format::encode_archive;
use wrapper::payload::decompress_payload;

fn demo_archive() -> Archive {
    Archive {
        records: vec![
            ArchiveRecord {
                relative_path: "bin/demo".to_string(),
                mode_bits: 0o755,
                content: b"#!/bin/sh\necho hi".to_vec(),
            },
            ArchiveRecord {
                relative_path: "lib/demo-1.2.3/ebin/demo.app".to_string(),
                mode_bits: 0o644,
                content: vec![b'x'; 4000],
            },
        ],
    }
}

fn compressed(bytes: &[u8]) -> Vec<u8> {
    snap::raw::Encoder::new().compress_vec(bytes).unwrap()
}

#[test]
fn unpacks_a_compressed_archive() {
    let payload = compressed(&encode_archive(&demo_archive()));
    assert!(payload.len() < encode_archive(&demo_archive()).len());
    assert_eq!(decompress_payload(&payload), Ok(demo_archive()));
}

#[test]
fn an_archive_that_is_not_compressed_is_refused() {
    let raw = encode_archive(&demo_archive());
    assert_eq!(decompress_payload(&raw), Err(WrapperError::PayloadDecompressFailed));
}

#[test]
fn an_empty_payload_is_refused() {
    assert_eq!(decompress_payload(&[]), Err(WrapperError::PayloadDecompressFailed));
}

#[test]
fn a_compressed_empty_archive_unpacks_to_no_records() {
    let payload = compressed(&[]);
    assert_eq!(decompress_payload(&payload), Ok(Archive { records: vec![] }));
}

#[test]
fn every_truncation_of_a_payload_is_refused() {
    let payload = compressed(&encode_archive(&demo_archive()));
    for cut in 0..payload.len() {
        assert_eq!(
            decompress_payload(&payload[..cut]),
            Err(WrapperError::PayloadDecompressFailed),
            "cut at {}",
            cut
        );
    }
}

#[test]
fn a_flipped_bit_in_the_block_header_is_refused() {
    let payload = compressed(&encode_archive(&demo_archive()));
    for bit in 0..8 {
        let mut broken = payload.clone();
        broken[0] ^= 1 << bit;
        assert_eq!(
            decompress_payload(&broken),
            Err(WrapperError::PayloadDecompressFailed),
            "bit {}",
            bit
        );
    }
}

#[test]
fn compressed_bytes_that_are_no_archive_are_refused() {
    let payload = compressed(b"this is not an archive at all");
    assert_eq!(decompress_payload(&payload), Err(WrapperError::PayloadDecompressFailed));
}
