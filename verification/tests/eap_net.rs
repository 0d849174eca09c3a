//! Decoder robustness: hostile / malformed EAP input yields `Err`, never a
//! panic.

use stage_protocols::eap::{EapError, FrameType, PublisherTelegram};

#[test]
fn net_decode_truncated_buffer_is_err() {
    // Fewer than the 2-byte frame header.
    let err = PublisherTelegram::decode(&[0x00]).unwrap_err();
    assert!(matches!(err, EapError::UnexpectedEof { .. }), "got {err:?}");

    assert!(PublisherTelegram::decode(&[]).is_err());
}

#[test]
fn decode_short_nv_header_is_err() {
    // Valid NV-type frame header but a truncated NV header.
    let word: u16 = 4 << 12;
    let mut buf = word.to_le_bytes().to_vec();
    buf.extend_from_slice(&[0u8; 3]);
    let err = PublisherTelegram::decode(&buf).unwrap_err();
    assert!(matches!(err, EapError::UnexpectedEof { .. }), "got {err:?}");
}

#[test]
fn decode_wrong_frame_type_is_err() {
    // Frame type 1 (EtherCAT command), not network variables.
    let word: u16 = 1 << 12;
    let mut buf = word.to_le_bytes().to_vec();
    buf.extend_from_slice(&[0u8; 12]);
    let err = PublisherTelegram::decode(&buf).unwrap_err();
    assert_eq!(err, EapError::NotNetworkVariables(FrameType::EtherCatCommand));
}

#[test]
fn decode_variable_overrun_is_err() {
    // Well-formed NV header declaring one variable whose length overruns.
    let word: u16 = 4 << 12;
    let mut buf = word.to_le_bytes().to_vec();
    buf.extend_from_slice(&[0u8; 6]); // publisher
    buf.extend_from_slice(&1u16.to_le_bytes()); // count = 1
    buf.extend_from_slice(&0u16.to_le_bytes()); // cycle_index
    buf.extend_from_slice(&0u16.to_le_bytes()); // reserved
    buf.extend_from_slice(&7u16.to_le_bytes()); // id
    buf.extend_from_slice(&0u16.to_le_bytes()); // hash
    buf.extend_from_slice(&0x00FFu16.to_le_bytes()); // length 255, but no data
    buf.extend_from_slice(&0u16.to_le_bytes()); // quality
    let err = PublisherTelegram::decode(&buf).unwrap_err();
    assert!(matches!(err, EapError::VariableOverrun { id: 7, .. }), "got {err:?}");
}
