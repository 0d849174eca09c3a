//! Concrete cases of the EAP contracts and laws.

use stage_protocols::eap::value::{bool_byte, i16_le, i32_le, u32_le};
use stage_protocols::eap::{EapError, FrameHeader, FrameType, NetworkVariable, PublisherTelegram};

#[test]
fn frame_header_fields() {
    // word 0x4ABC: length = 0x0ABC & 0x7FF = 0x2BC, type = 4.
    let h = FrameHeader::parse(&0x4ABCu16.to_le_bytes()).unwrap();
    assert_eq!(h.length, 0x02BC);
    assert_eq!(h.frame_type, FrameType::NetworkVariables);
    let h = FrameHeader::parse(&0xF000u16.to_le_bytes()).unwrap();
    assert_eq!(h.frame_type, FrameType::Other(15));
    let h = FrameHeader::parse(&0x5000u16.to_le_bytes()).unwrap();
    assert_eq!(h.frame_type, FrameType::Mailbox);
    assert_eq!(FrameHeader::parse(&[]), Err(EapError::UnexpectedEof { offset: 0, needed: 2 }));
}

#[test]
fn encode_writes_exact_bytes() {
    let data = [0x11u8, 0x22];
    let t = PublisherTelegram {
        publisher: [1, 2, 3, 4, 5, 6],
        cycle_index: 0x0102,
        variables: vec![NetworkVariable { id: 0x0A0B, hash: 0x0C0D, quality: 0x0E0F, data: &data }],
    };
    let bytes = t.encode();
    // 12-byte NV header + 8-byte variable header + 2 data bytes = 22 = 0x16.
    assert_eq!(
        bytes,
        vec![
            0x16, 0x40, // frame header: type 4, length 22
            1, 2, 3, 4, 5, 6, // publisher
            1, 0, // count
            0x02, 0x01, // cycle index
            0, 0, // reserved
            0x0B, 0x0A, 0x0D, 0x0C, 2, 0, 0x0F, 0x0E, // variable header
            0x11, 0x22, // data
        ]
    );
}

#[test]
fn empty_telegram_roundtrip() {
    let t = PublisherTelegram { publisher: [9; 6], cycle_index: 65535, variables: vec![] };
    let bytes = t.encode();
    assert_eq!(bytes.len(), 14);
    assert_eq!(PublisherTelegram::decode(&bytes).unwrap(), t);
}

#[test]
fn variable_header_truncation_offsets() {
    // Two declared variables, the second header cut after 3 bytes.
    let mut nv = vec![0u8; 6];
    nv.extend_from_slice(&2u16.to_le_bytes());
    nv.extend_from_slice(&0u16.to_le_bytes());
    nv.extend_from_slice(&0u16.to_le_bytes());
    nv.extend_from_slice(&[1, 0, 0, 0, 1, 0, 0, 0, 0xAB]); // var 1: one data byte
    nv.extend_from_slice(&[2, 0, 0]); // var 2: truncated header
    let err = PublisherTelegram::decode_nv(&nv).unwrap_err();
    assert_eq!(err, EapError::UnexpectedEof { offset: 21, needed: 5 });
    let short = [0u8; 5];
    assert_eq!(
        PublisherTelegram::decode_nv(&short).unwrap_err(),
        EapError::UnexpectedEof { offset: 0, needed: 7 }
    );
}

#[test]
fn variable_overrun_reports_available() {
    let mut nv = vec![0u8; 6];
    nv.extend_from_slice(&1u16.to_le_bytes());
    nv.extend_from_slice(&[0, 0, 0, 0]);
    nv.extend_from_slice(&[5, 0, 0, 0, 10, 0, 0, 0, 1, 2, 3]);
    assert_eq!(
        PublisherTelegram::decode_nv(&nv).unwrap_err(),
        EapError::VariableOverrun { id: 5, len: 10, available: 3 }
    );
}

#[test]
fn builders_read_back() {
    let b = i32_le(-123456);
    let v = NetworkVariable { id: 0, hash: 0, quality: 0, data: &b };
    assert_eq!(v.as_i32_le(), Some(-123456));
    let b = u32_le(0xDEADBEEF);
    let v = NetworkVariable { id: 0, hash: 0, quality: 0, data: &b };
    assert_eq!(v.as_u32_le(), Some(0xDEADBEEF));
    assert_eq!(b, [0xEF, 0xBE, 0xAD, 0xDE]);
    let b = i16_le(-2);
    let v = NetworkVariable { id: 0, hash: 0, quality: 0, data: &b };
    assert_eq!(v.as_i16_le(), Some(-2));
    let b = bool_byte(false);
    let v = NetworkVariable { id: 0, hash: 0, quality: 0, data: &b };
    assert_eq!(v.as_bool(), Some(false));
    let empty = NetworkVariable { id: 0, hash: 0, quality: 0, data: &[] };
    assert_eq!(empty.as_bool(), None);
    assert_eq!(empty.as_i16_le(), None);
    let three = NetworkVariable { id: 0, hash: 0, quality: 0, data: &[1, 2, 3] };
    assert_eq!(three.as_u32_le(), None);
    assert_eq!(three.as_i16_le(), Some(0x0201));
}
