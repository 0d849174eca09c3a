//! encode → decode round trip for OTP transform messages. Values are given in
//! SI units and scaled to the integers that OTP carries (µm, millionths of a
//! degree, millionths of scale).

use stage_protocols::otp::modules::{Address, Position, UVec3, Vec3};
use stage_protocols::otp::transform::Point;
use stage_protocols::otp::{Message, OtpLayer, Packet, TransformMessage};

fn millionths(v: f64) -> i32 {
    (v * 1e6).round() as i32
}

fn metres(x: f64, y: f64, z: f64) -> Position {
    Position {
        millimetres: false,
        value: Vec3::new(millionths(x), millionths(y), millionths(z)),
    }
}

fn degrees(x: f64, y: f64, z: f64) -> UVec3 {
    UVec3 {
        x: (x * 1e6).round() as u32,
        y: (y * 1e6).round() as u32,
        z: (z * 1e6).round() as u32,
    }
}

fn scaled(x: f64, y: f64, z: f64) -> Vec3 {
    Vec3::new(millionths(x), millionths(y), millionths(z))
}

#[test]
fn transform_roundtrip() {
    let original = Packet {
        layer: OtpLayer {
            cid: [1, 2, 3, 4, 5, 6, 7, 8, 9, 10, 11, 12, 13, 14, 15, 16],
            folio: 42,
            page: 0,
            last_page: 0,
            component_name: "trimtrack".into(),
        },
        message: Message::Transform(TransformMessage {
            system: 3,
            timestamp_us: 1_000_000,
            full_point_set: true,
            points: vec![
                Point {
                    address: Address { system: 3, group: 1, point: 100 },
                    priority: 120,
                    timestamp_us: 555,
                    position: Some(metres(1.5, -2.0, 3.25)),
                    rotation: Some(degrees(90.0, 180.0, 270.0)),
                    scale: Some(scaled(1.0, 1.0, 2.0)),
                    ..Default::default()
                },
                Point {
                    address: Address { system: 3, group: 2, point: 7 },
                    priority: 100,
                    timestamp_us: 556,
                    position: Some(metres(0.0, 0.0, 0.0)),
                    velocity: Some(scaled(0.5, 0.0, 0.0)),
                    acceleration: Some(scaled(0.25, 0.0, 0.0)),
                    reference_frame: Some(Address { system: 3, group: 1, point: 100 }),
                    ..Default::default()
                },
            ],
        }),
    };

    let bytes = original.encode();
    let decoded = Packet::decode(&bytes).expect("decode");
    assert_eq!(decoded, original);
}
