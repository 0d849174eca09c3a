//! Concrete cases of the PSN contracts and laws.

use stage_protocols::psn::data::DataHeader;
use stage_protocols::psn::{
    ChunkReader, DataPacket, InfoPacket, Packet, PsnError, Tracker, TrackerInfo, Vec3,
};

fn chunk(id: u16, subchunks: bool, data: &[u8]) -> Vec<u8> {
    let mut v = Vec::new();
    v.extend_from_slice(&id.to_le_bytes());
    let mut packed = (data.len() as u16) & 0x7FFF;
    if subchunks {
        packed |= 0x8000;
    }
    v.extend_from_slice(&packed.to_le_bytes());
    v.extend_from_slice(data);
    v
}

#[test]
fn missing_header_becomes_default() {
    let p = DataPacket { header: None, trackers: vec![Tracker { id: 3, ..Default::default() }] };
    match Packet::decode(&p.encode()).unwrap() {
        Packet::Data(d) => {
            assert_eq!(
                d.header,
                Some(DataHeader {
                    timestamp_us: 0,
                    version_high: 2,
                    version_low: 0,
                    frame_id: 0,
                    frame_packet_count: 1,
                })
            );
            assert_eq!(d.trackers, p.trackers);
        }
        other => panic!("expected data, got {other:?}"),
    }
}

#[test]
fn every_tracker_field_roundtrips() {
    let p = DataPacket {
        header: Some(DataHeader {
            timestamp_us: u64::MAX,
            version_high: 2,
            version_low: 3,
            frame_id: 255,
            frame_packet_count: 2,
        }),
        trackers: vec![Tracker {
            id: 0xFFFF,
            position: Some(Vec3::new(1, 2, 3)),
            speed: Some(Vec3::new(4, 5, 6)),
            orientation: Some(Vec3::new(7, 8, 9)),
            status: Some(0x3F80_0000),
            acceleration: Some(Vec3::new(u32::MAX, 0, 1)),
            target_position: Some(Vec3::new(10, 11, 12)),
            timestamp_us: Some(0x0102_0304_0506_0708),
        }],
    };
    match Packet::decode(&p.encode()).unwrap() {
        Packet::Data(d) => assert_eq!(d, p),
        other => panic!("expected data, got {other:?}"),
    }
}

#[test]
fn info_without_header_or_names_roundtrips() {
    let p = InfoPacket {
        header: None,
        system_name: None,
        trackers: vec![TrackerInfo { id: 2, name: None }, TrackerInfo { id: 9, name: Some("é".into()) }],
    };
    match Packet::decode(&p.encode()).unwrap() {
        Packet::Info(i) => assert_eq!(i, p),
        other => panic!("expected info, got {other:?}"),
    }
}

#[test]
fn data_encode_exact_bytes() {
    let p = DataPacket { header: None, trackers: vec![] };
    let header = [0u8, 0, 0, 0, 0, 0, 0, 0, 2, 0, 0, 1];
    let mut body = chunk(0, false, &header);
    body.extend(chunk(1, true, &[]));
    assert_eq!(p.encode(), chunk(0x6755, true, &body));
}

#[test]
fn invalid_utf8_name_is_err() {
    let body = chunk(1, false, &[0xFF, 0xFE]);
    let packet = chunk(0x6756, true, &body);
    assert_eq!(Packet::decode(&packet).unwrap_err(), PsnError::InvalidUtf8 { offset: 0 });
}

#[test]
fn short_field_is_eof() {
    // A position field with 6 of its 12 bytes.
    let field = chunk(0, false, &[0, 0, 0, 0, 0, 0]);
    let tracker = chunk(1, true, &field);
    let list = chunk(1, true, &tracker);
    let packet = chunk(0x6755, true, &list);
    assert_eq!(
        Packet::decode(&packet).unwrap_err(),
        PsnError::UnexpectedEof { offset: 4, needed: 2 }
    );
}

#[test]
fn short_header_is_eof() {
    let header = chunk(0, false, &[0; 10]);
    let packet = chunk(0x6755, true, &header);
    assert_eq!(
        Packet::decode(&packet).unwrap_err(),
        PsnError::UnexpectedEof { offset: 10, needed: 1 }
    );
}

#[test]
fn unknown_chunks_are_skipped() {
    let mut body = chunk(0x0042, false, &[1, 2, 3]);
    body.extend(chunk(1, true, &chunk(4, true, &chunk(0x0099, false, &[7]))));
    let packet = chunk(0x6755, true, &body);
    match Packet::decode(&packet).unwrap() {
        Packet::Data(d) => {
            assert_eq!(d.header, None);
            assert_eq!(d.trackers, vec![Tracker { id: 4, ..Default::default() }]);
        }
        other => panic!("expected data, got {other:?}"),
    }
}

#[test]
fn reader_stops_after_error_with_base_offsets() {
    let buf = [0x01, 0x00, 0x00, 0x00, 0x02, 0x00];
    let mut r = ChunkReader::with_base(&buf, 100);
    let c = r.next().unwrap().unwrap();
    assert_eq!(c.header.id, 1);
    assert_eq!(r.next().unwrap().unwrap_err(), PsnError::UnexpectedEof { offset: 104, needed: 2 });
    assert!(r.next().is_none());
}

#[test]
fn base_only_shifts_error_offsets() {
    let mut buf = chunk(3, false, &[1, 2]);
    buf.extend_from_slice(&chunk(4, true, &[]));
    buf.extend_from_slice(&[0x05, 0x00, 0x09, 0x00, 0xEE]);
    let mut plain = ChunkReader::new(&buf);
    let mut based = ChunkReader::with_base(&buf, 40);
    for _ in 0..2 {
        let a = plain.next().unwrap().unwrap();
        let b = based.next().unwrap().unwrap();
        assert_eq!(a, b);
    }
    assert_eq!(
        plain.next().unwrap().unwrap_err(),
        PsnError::ChunkOverrun { offset: 10, len: 9, available: 1 }
    );
    assert_eq!(
        based.next().unwrap().unwrap_err(),
        PsnError::ChunkOverrun { offset: 50, len: 9, available: 1 }
    );
    for _ in 0..3 {
        assert!(plain.next().is_none());
        assert!(based.next().is_none());
    }
}

#[test]
fn children_read_like_a_new_reader_over_the_data() {
    let mut inner = chunk(1, false, &[7]);
    inner.extend_from_slice(&[0xAA, 0xBB]);
    let buf = chunk(9, true, &inner);
    let outer = ChunkReader::new(&buf).next().unwrap().unwrap();
    let mut kids = outer.children();
    let mut direct = ChunkReader::new(outer.data);
    assert_eq!(kids.next().unwrap().unwrap(), direct.next().unwrap().unwrap());
    let e = PsnError::UnexpectedEof { offset: 5, needed: 2 };
    assert_eq!(kids.next().unwrap().unwrap_err(), e);
    assert_eq!(direct.next().unwrap().unwrap_err(), e);
    assert!(kids.next().is_none());
}

#[test]
fn info_body_decodes_after_root_header() {
    let p = InfoPacket {
        header: None,
        system_name: Some("rig".into()),
        trackers: vec![TrackerInfo { id: 3, name: Some("spot".into()) }],
    };
    let bytes = p.encode();
    assert_eq!(InfoPacket::decode(&bytes[4..]).unwrap(), p);
    let d = DataPacket { header: None, trackers: vec![Tracker { id: 1, ..Default::default() }] };
    let bytes = d.encode();
    let back = DataPacket::decode(&bytes[4..]).unwrap();
    assert_eq!(back.trackers, d.trackers);
    assert!(back.header.is_some());
}
