//! Decoder robustness: hostile / malformed PSN input yields `Err`, never a
//! panic.

use stage_protocols::psn::{Packet, PsnError, PSN_DATA_PACKET};

#[test]
fn decode_truncated_buffer_is_err() {
    // Shorter than a single 4-byte chunk header.
    let err = Packet::decode(&[0x55, 0x67]).unwrap_err();
    assert!(matches!(err, PsnError::UnexpectedEof { .. }), "got {err:?}");

    assert!(Packet::decode(&[]).is_err());
}

#[test]
fn decode_garbage_root_chunk_is_err() {
    // Valid 4-byte chunk header but an unknown root id (0x1234), zero data.
    let buf = [0x34, 0x12, 0x00, 0x00];
    let err = Packet::decode(&buf).unwrap_err();
    assert!(matches!(err, PsnError::UnknownRootChunk(0x1234)), "got {err:?}");
}

#[test]
fn decode_chunk_overrun_is_err() {
    // Root chunk PSN_DATA with subchunks, declared length 16, no data.
    let buf = [0x55, 0x67, 0x10, 0x80];
    let err = Packet::decode(&buf).unwrap_err();
    assert!(matches!(err, PsnError::ChunkOverrun { .. }), "got {err:?}");
}

#[test]
fn decode_nested_chunk_overrun_is_err() {
    // A root whose single child declares more data than the body holds.
    let inner = [0x00u8, 0x00, 0x10, 0x00];
    let mut buf = Vec::new();
    buf.extend_from_slice(&PSN_DATA_PACKET.to_le_bytes());
    let packed: u16 = 0x8000 | (inner.len() as u16);
    buf.extend_from_slice(&packed.to_le_bytes());
    buf.extend_from_slice(&inner);
    let err = Packet::decode(&buf).unwrap_err();
    assert!(matches!(err, PsnError::ChunkOverrun { .. }), "got {err:?}");
}
