//! Decoder robustness: hostile / malformed OTP input yields `Err`, never a
//! panic.

use stage_protocols::otp::{OtpError, Packet, PACKET_IDENT, VECTOR_TRANSFORM_MESSAGE};

#[test]
fn otp_decode_truncated_buffer_is_err() {
    // Shorter than the 12-byte packet identifier.
    let err = Packet::decode(&[0x4F, 0x54, 0x50]).unwrap_err();
    assert!(matches!(err, OtpError::TooShort(3)), "got {err:?}");

    assert!(Packet::decode(&[]).is_err());
}

#[test]
fn decode_bad_identifier_is_err() {
    let mut buf = vec![0u8; 32];
    buf[..12].copy_from_slice(b"NOT-OTP\0\0\0\0\0");
    let err = Packet::decode(&buf).unwrap_err();
    assert_eq!(err, OtpError::BadIdentifier);
}

#[test]
fn decode_base_pdu_overrun_is_err() {
    // Correct identifier, then a base PDU whose declared length overruns.
    let mut buf = Vec::new();
    buf.extend_from_slice(&PACKET_IDENT);
    buf.extend_from_slice(&VECTOR_TRANSFORM_MESSAGE.to_be_bytes());
    buf.extend_from_slice(&0xFFFFu16.to_be_bytes());
    let err = Packet::decode(&buf).unwrap_err();
    assert!(matches!(err, OtpError::PduOverrun { .. }), "got {err:?}");
}

#[test]
fn decode_unknown_vector_is_err() {
    // A well-formed base PDU with an unknown base vector.
    let mut base_body = Vec::new();
    base_body.push(0); // footer options
    base_body.push(0); // footer length
    base_body.extend_from_slice(&[0u8; 16]); // cid
    base_body.extend_from_slice(&0u32.to_be_bytes()); // folio
    base_body.extend_from_slice(&0u16.to_be_bytes()); // page
    base_body.extend_from_slice(&0u16.to_be_bytes()); // last_page
    base_body.push(0); // options
    base_body.extend_from_slice(&0u32.to_be_bytes()); // reserved
    base_body.extend_from_slice(&[0u8; 32]); // component name
    base_body.extend_from_slice(&0u16.to_be_bytes()); // empty sub-PDU vector
    base_body.extend_from_slice(&0u16.to_be_bytes()); // empty sub-PDU length

    let mut buf = Vec::new();
    buf.extend_from_slice(&PACKET_IDENT);
    buf.extend_from_slice(&0x4242u16.to_be_bytes()); // unknown base vector
    buf.extend_from_slice(&(base_body.len() as u16).to_be_bytes());
    buf.extend_from_slice(&base_body);

    let err = Packet::decode(&buf).unwrap_err();
    assert_eq!(err, OtpError::UnknownVector(0x4242));
}
