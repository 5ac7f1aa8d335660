use binrw::BinWrite;
use std::io::Cursor;
use wrapper::archive::{Archive, ArchiveRecord};
use wrapper::format::{decode_archive, encode_archive};

fn written_with_binrw(records: &[(&str, u32, &[u8])]) -> Vec<u8> {
    let mut out = Cursor::new(Vec::new());
    for (path, mode, content) in records {
        (path.len() as u64).write_be(&mut out).unwrap();
        path.as_bytes().to_vec().write_be(&mut out).unwrap();
        mode.write_be(&mut out).unwrap();
        (content.len() as u64).write_be(&mut out).unwrap();
        content.to_vec().write_be(&mut out).unwrap();
    }
    out.into_inner()
}

#[test]
fn reads_what_binrw_writes_big_endian() {
    let bytes = written_with_binrw(&[("bin/demo", 0o755, b"#!/bin/sh\necho hi"), ("empty", 0, b"")]);
    let expected = Archive {
        records: vec![
            ArchiveRecord {
                relative_path: "bin/demo".to_string(),
                mode_bits: 0o755,
                content: b"#!/bin/sh\necho hi".to_vec(),
            },
            ArchiveRecord { relative_path: "empty".to_string(), mode_bits: 0, content: vec![] },
        ],
    };
    assert_eq!(decode_archive(&bytes), Ok(expected));
}

#[test]
fn writes_what_binrw_writes_big_endian() {
    let archive = Archive {
        records: vec![ArchiveRecord {
            relative_path: "lib/app.beam".to_string(),
            mode_bits: 0o100644,
            content: vec![0xDE, 0xAD, 0xBE, 0xEF],
        }],
    };
    assert_eq!(
        encode_archive(&archive),
        written_with_binrw(&[("lib/app.beam", 0o100644, &[0xDE, 0xAD, 0xBE, 0xEF])])
    );
}
