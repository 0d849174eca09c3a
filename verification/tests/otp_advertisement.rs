//! encode → decode round trips for the OTP advertisement message layers,
//! checking the two-level PDU nesting of the advertisement layer.

use stage_protocols::otp::advertisement::{ModuleIdent, PointName};
use stage_protocols::otp::modules::Address;
use stage_protocols::otp::{AdvertisementMessage, Message, OtpLayer, Packet, PACKET_IDENT};

fn wrap(message: AdvertisementMessage) -> Packet {
    Packet {
        layer: OtpLayer {
            cid: [1, 2, 3, 4, 5, 6, 7, 8, 9, 10, 11, 12, 13, 14, 15, 16],
            folio: 7,
            page: 1,
            last_page: 1,
            component_name: "trimtrack".into(),
        },
        message: Message::Advertisement(message),
    }
}

fn roundtrip(message: AdvertisementMessage) {
    let original = wrap(message);
    let bytes = original.encode();
    let decoded = Packet::decode(&bytes).expect("decode");
    assert_eq!(decoded, original);
}

#[test]
fn module_roundtrip() {
    roundtrip(AdvertisementMessage::Module(vec![
        ModuleIdent { manufacturer: 0x0000, module: 0x0001 },
        ModuleIdent { manufacturer: 0x0000, module: 0x0003 },
    ]));
}

#[test]
fn name_request_roundtrip() {
    roundtrip(AdvertisementMessage::Name { is_response: false, names: vec![] });
}

#[test]
fn name_response_roundtrip() {
    roundtrip(AdvertisementMessage::Name {
        is_response: true,
        names: vec![
            PointName {
                address: Address { system: 1, group: 1000, point: 1 },
                name: "Slider B".into(),
            },
            PointName {
                address: Address { system: 5, group: 1, point: 1001 },
                name: "Audience Lift A".into(),
            },
        ],
    });
}

#[test]
fn system_request_roundtrip() {
    roundtrip(AdvertisementMessage::System { is_response: false, systems: vec![] });
}

#[test]
fn system_response_roundtrip() {
    roundtrip(AdvertisementMessage::System { is_response: true, systems: vec![1, 5] });
}

/// The advertisement layer vector (octets 79-80) is the advertisement kind,
/// and the inner list layer vector (octets 87-88) is 0x0001.
#[test]
fn wire_structure_two_level_nesting() {
    let bytes = wrap(AdvertisementMessage::Module(vec![ModuleIdent { manufacturer: 0, module: 1 }]))
        .encode();
    assert_eq!(&bytes[..PACKET_IDENT.len()], PACKET_IDENT.as_slice());
    // Base-layer vector (octets 12-13) is the advertisement message vector.
    assert_eq!(u16::from_be_bytes([bytes[12], bytes[13]]), 0x0002);
    assert_eq!(u16::from_be_bytes([bytes[79], bytes[80]]), 0x0001);
    assert_eq!(u16::from_be_bytes([bytes[87], bytes[88]]), 0x0001);

    let bytes = wrap(AdvertisementMessage::Name { is_response: true, names: vec![] }).encode();
    assert_eq!(u16::from_be_bytes([bytes[79], bytes[80]]), 0x0002);
    assert_eq!(u16::from_be_bytes([bytes[87], bytes[88]]), 0x0001);

    let bytes =
        wrap(AdvertisementMessage::System { is_response: true, systems: vec![1, 5] }).encode();
    assert_eq!(u16::from_be_bytes([bytes[79], bytes[80]]), 0x0003);
    assert_eq!(u16::from_be_bytes([bytes[87], bytes[88]]), 0x0001);
}
