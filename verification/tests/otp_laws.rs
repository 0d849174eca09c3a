//! Concrete cases of the OTP contracts and laws.

use stage_protocols::otp::advertisement::{AdvertisementMessage, ModuleIdent};
use stage_protocols::otp::modules::{
    decode_position, decode_reference_frame, decode_rotation, Address, Position, UVec3, Vec3,
};
use stage_protocols::otp::pdu::{read_one, PduReader};
use stage_protocols::otp::transform::{Point, TransformMessage};
use stage_protocols::otp::{Message, OtpError, OtpLayer, Packet};

fn layer(name: &str) -> OtpLayer {
    OtpLayer { cid: [7; 16], folio: 1, page: 0, last_page: 0, component_name: name.into() }
}

fn transform(points: Vec<Point>) -> Packet {
    Packet {
        layer: layer("x"),
        message: Message::Transform(TransformMessage {
            system: 2,
            timestamp_us: 9,
            full_point_set: false,
            points,
        }),
    }
}

#[test]
fn module_values_decode_exactly() {
    let mut d = vec![0x80];
    d.extend_from_slice(&(-5i32).to_be_bytes());
    d.extend_from_slice(&6i32.to_be_bytes());
    d.extend_from_slice(&7i32.to_be_bytes());
    assert_eq!(
        decode_position(&d),
        Ok(Position { millimetres: true, value: Vec3::new(-5, 6, 7) })
    );
    assert_eq!(decode_position(&d[..7]), Err(OtpError::UnexpectedEof { offset: 5, needed: 2 }));
    let r = [0xFF, 0xFF, 0xFF, 0xFF, 0, 0, 0, 1, 0, 0, 1, 0];
    assert_eq!(decode_rotation(&r), Ok(UVec3 { x: u32::MAX, y: 1, z: 256 }));
    assert_eq!(
        decode_reference_frame(&[3, 0, 4, 0, 0, 0, 5]),
        Ok(Address { system: 3, group: 4, point: 5 })
    );
}

#[test]
fn velocity_alone_writes_zero_acceleration() {
    let p = Point {
        address: Address { system: 2, group: 1, point: 1 },
        velocity: Some(Vec3::new(1, 2, 3)),
        ..Default::default()
    };
    let decoded = Packet::decode(&transform(vec![p]).encode()).unwrap();
    match decoded.message {
        Message::Transform(t) => {
            assert_eq!(t.points[0].velocity, Some(Vec3::new(1, 2, 3)));
            assert_eq!(t.points[0].acceleration, Some(Vec3::new(0, 0, 0)));
        }
        other => panic!("expected transform, got {other:?}"),
    }
}

#[test]
fn point_takes_message_system() {
    let p = Point { address: Address { system: 99, group: 1, point: 1 }, ..Default::default() };
    let decoded = Packet::decode(&transform(vec![p]).encode()).unwrap();
    match decoded.message {
        Message::Transform(t) => assert_eq!(t.points[0].address.system, 2),
        other => panic!("expected transform, got {other:?}"),
    }
}

#[test]
fn long_name_is_cut_on_char_boundary() {
    // 31 ASCII bytes then a 2-byte character: 33 bytes, cut to 31.
    let name = format!("{}é", "a".repeat(31));
    let p = Packet {
        layer: layer(&name),
        message: Message::Advertisement(AdvertisementMessage::System {
            is_response: true,
            systems: vec![],
        }),
    };
    let decoded = Packet::decode(&p.encode()).unwrap();
    assert_eq!(decoded.layer.component_name, "a".repeat(31));
}

#[test]
fn invalid_name_bytes_are_replaced() {
    let p = Packet {
        layer: layer("ok"),
        message: Message::Advertisement(AdvertisementMessage::System {
            is_response: false,
            systems: vec![4],
        }),
    };
    let mut bytes = p.encode();
    // Component name field starts at octet 47 (12 + 4 + 31).
    bytes[47] = 0xFF;
    let decoded = Packet::decode(&bytes).unwrap();
    assert_eq!(decoded.layer.component_name, "\u{FFFD}k");
}

#[test]
fn unknown_advertisement_does_not_roundtrip() {
    let p = Packet {
        layer: layer("u"),
        message: Message::Advertisement(AdvertisementMessage::Unknown(9)),
    };
    assert_eq!(
        Packet::decode(&p.encode()).unwrap_err(),
        OtpError::UnexpectedEof { offset: 0, needed: 4 }
    );
}

#[test]
fn advertisement_with_other_list_vector_is_unknown() {
    let mut body = vec![0, 0, 0, 0];
    body.extend_from_slice(&[0, 7, 0, 0]); // inner PDU: vector 7, empty
    assert_eq!(AdvertisementMessage::decode(1, &body), Ok(AdvertisementMessage::Unknown(1)));
    assert_eq!(AdvertisementMessage::decode(3, &[0, 0, 0, 0]), Ok(AdvertisementMessage::Unknown(3)));
    let mut list = vec![0, 0, 0, 0];
    list.extend_from_slice(&[0, 1, 0, 6, 0, 0, 0, 0, 0, 5]);
    assert_eq!(
        AdvertisementMessage::decode(1, &list),
        Ok(AdvertisementMessage::Module(vec![]))
    );
    list.extend_from_slice(&[0, 2]);
    let mut full = vec![0, 0, 0, 0, 0, 1, 0, 8, 0, 0, 0, 0, 0, 5, 0, 2];
    full.truncate(16);
    assert_eq!(
        AdvertisementMessage::decode(1, &full),
        Ok(AdvertisementMessage::Module(vec![ModuleIdent { manufacturer: 5, module: 2 }]))
    );
}

#[test]
fn pdu_reader_treats_short_tail_as_padding() {
    let buf = [0, 1, 0, 1, 9, 0xAA, 0xBB];
    let mut r = PduReader::new(&buf);
    let p = r.next().unwrap().unwrap();
    assert_eq!(p.vector, 1);
    assert_eq!(p.body, &[9]);
    assert!(r.next().is_none());
    assert!(read_one(&[1, 2, 3]).unwrap().is_none());
    assert_eq!(
        read_one(&[0, 1, 0, 9, 1]).unwrap_err(),
        OtpError::PduOverrun { offset: 0, len: 9, available: 1 }
    );
}

#[test]
fn read_one_returns_pdu_and_remaining_bytes() {
    let buf = [0, 7, 0, 2, 5, 6, 0xAA, 0xBB, 0xCC];
    let (p, rest) = read_one(&buf).unwrap().unwrap();
    assert_eq!(p.vector, 7);
    assert_eq!(p.body, &[5, 6]);
    assert_eq!(rest, &[0xAA, 0xBB, 0xCC]);
    let (p, rest) = read_one(&[0, 3, 0, 0]).unwrap().unwrap();
    assert_eq!(p.vector, 3);
    assert!(p.body.is_empty());
    assert!(rest.is_empty());
}

#[test]
fn pdu_reader_hands_out_run_then_nothing() {
    let buf = [0, 1, 0, 1, 9, 0, 2, 0, 0, 0xAA, 0xBB];
    let mut r = PduReader::new(&buf);
    let p = r.next().unwrap().unwrap();
    assert_eq!((p.vector, p.body), (1, &[9u8][..]));
    let p = r.next().unwrap().unwrap();
    assert_eq!((p.vector, p.body.len()), (2, 0));
    for _ in 0..3 {
        assert!(r.next().is_none());
    }
}

#[test]
fn pdu_reader_ends_after_overrun() {
    let buf = [0, 1, 0, 0, 0, 2, 0, 8, 1, 2, 3, 4];
    let mut r = PduReader::new(&buf);
    assert_eq!(r.next().unwrap().unwrap().vector, 1);
    assert_eq!(
        r.next().unwrap().unwrap_err(),
        OtpError::PduOverrun { offset: 4, len: 8, available: 4 }
    );
    for _ in 0..3 {
        assert!(r.next().is_none());
    }
}
