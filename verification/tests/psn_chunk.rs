//! PSN chunk framing.

use stage_protocols::psn::{ChunkReader, PsnError};

#[test]
fn parses_flat_header() {
    // id = 0x0001, data_len = 4, has_subchunks = 0
    let buf = [0x01, 0x00, 0x04, 0x00, 0xAA, 0xBB, 0xCC, 0xDD];
    let mut r = ChunkReader::new(&buf);
    let c = r.next().unwrap().unwrap();
    assert_eq!(c.header.id, 1);
    assert_eq!(c.header.data_len, 4);
    assert!(!c.header.has_subchunks);
    assert_eq!(c.data, &[0xAA, 0xBB, 0xCC, 0xDD]);
    assert!(r.next().is_none());
}

#[test]
fn detects_subchunk_bit() {
    // packed = 0x8000 | 0 => has_subchunks, data_len 0
    let buf = [0x02, 0x00, 0x00, 0x80];
    let c = ChunkReader::new(&buf).next().unwrap().unwrap();
    assert!(c.header.has_subchunks);
    assert_eq!(c.header.data_len, 0);
}

#[test]
fn errors_on_overrun() {
    // declares 16 bytes of data but only 1 present
    let buf = [0x01, 0x00, 0x10, 0x00, 0xAA];
    let err = ChunkReader::new(&buf).next().unwrap().unwrap_err();
    assert!(matches!(err, PsnError::ChunkOverrun { .. }));
}
