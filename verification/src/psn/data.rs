//! `PSN_DATA` packet: live tracker transforms.
//!
//! ```text
//! PSN_DATA_PACKET (0x6755) [subchunks]
//! ├─ PSN_DATA_PACKET_HEADER (0x0000)
//! │    u64 timestamp_us, u8 version_high, u8 version_low, u8 frame_id, u8 frame_packet_count
//! └─ PSN_DATA_TRACKER_LIST (0x0001) [subchunks]
//!    └─ <tracker_id> [subchunks]
//!       ├─ POS       (0x0000)  Vec3 metres
//!       ├─ SPEED     (0x0001)  Vec3 m/s
//!       ├─ ORI       (0x0002)  Vec3 radians
//!       ├─ STATUS    (0x0003)  binary32 validity 0..1
//!       ├─ ACCEL     (0x0004)  Vec3 m/s²
//!       ├─ TRGTPOS   (0x0005)  Vec3 metres
//!       └─ TIMESTAMP (0x0006)  u64 microseconds
//! ```
use super::chunk::{spec_chunk_at, spec_chunk_data, spec_chunk_end, ChunkReader};
use super::read::{
    eof, spec_read_float_bits, spec_read_u64, spec_read_vec3, Cursor,
};
use super::{PsnError, Vec3};
use crate::bytes::le64_at;
use vstd::prelude::*;

verus! {

pub const DATA_PACKET_HEADER: u16 = 0x0000;

pub const DATA_TRACKER_LIST: u16 = 0x0001;

pub const TRACKER_POS: u16 = 0x0000;

pub const TRACKER_SPEED: u16 = 0x0001;

pub const TRACKER_ORI: u16 = 0x0002;

pub const TRACKER_STATUS: u16 = 0x0003;

pub const TRACKER_ACCEL: u16 = 0x0004;

pub const TRACKER_TRGTPOS: u16 = 0x0005;

pub const TRACKER_TIMESTAMP: u16 = 0x0006;

/// The `PSN_DATA_PACKET_HEADER` fields shared by every datagram in a frame.
#[derive(Debug, Clone, Copy, PartialEq, Eq, Structural)]
pub struct DataHeader {
    /// Server send timestamp, in microseconds.
    pub timestamp_us: u64,
    /// High byte of the protocol version (2 for PSN v2).
    pub version_high: u8,
    /// Low byte of the protocol version.
    pub version_low: u8,
    /// Frame id; increments once per full frame of tracker data.
    pub frame_id: u8,
    /// Number of UDP packets that make up this frame.
    pub frame_packet_count: u8,
}

/// The packet header that a header chunk's data holds.
pub open spec fn spec_data_header(d: Seq<u8>) -> Result<DataHeader, PsnError> {
    if d.len() < 8 {
        Err(eof(0, 8 - d.len()))
    } else if d.len() < 9 {
        Err(eof(8, 1))
    } else if d.len() < 10 {
        Err(eof(9, 1))
    } else if d.len() < 11 {
        Err(eof(10, 1))
    } else if d.len() < 12 {
        Err(eof(11, 1))
    } else {
        Ok(
            DataHeader {
                timestamp_us: le64_at(d, 0),
                version_high: d[8],
                version_low: d[9],
                frame_id: d[10],
                frame_packet_count: d[11],
            },
        )
    }
}

impl DataHeader {
    fn decode(data: &[u8]) -> (r: Result<Self, PsnError>)
        ensures
            r == spec_data_header(data@),
    {
        let mut c = Cursor::new(data);
        let timestamp_us = c.u64()?;
        let version_high = c.u8()?;
        let version_low = c.u8()?;
        let frame_id = c.u8()?;
        let frame_packet_count = c.u8()?;
        Ok(Self { timestamp_us, version_high, version_low, frame_id, frame_packet_count })
    }
}

/// One tracker's transform within a data packet. Every field is optional
/// because a sender transmits only what it has data for.
#[derive(Debug, Clone, Copy, PartialEq, Default)]
pub struct Tracker {
    /// Tracker id (the sub-chunk id within the tracker list).
    pub id: u16,
    /// Absolute position, metres.
    pub position: Option<Vec3>,
    /// Linear velocity, m/s.
    pub speed: Option<Vec3>,
    /// Orientation as rotation about each axis, radians.
    pub orientation: Option<Vec3>,
    /// Bits of the validity / tracking confidence, `0.0..=1.0`.
    pub status: Option<u32>,
    /// Linear acceleration, m/s².
    pub acceleration: Option<Vec3>,
    /// Target position, metres.
    pub target_position: Option<Vec3>,
    /// Per-tracker capture timestamp, microseconds.
    pub timestamp_us: Option<u64>,
}

/// A tracker with `id` and no fields.
pub open spec fn empty_tracker(id: u16) -> Tracker {
    Tracker {
        id,
        position: None,
        speed: None,
        orientation: None,
        status: None,
        acceleration: None,
        target_position: None,
        timestamp_us: None,
    }
}

/// `t` after the field chunk `id` with data `d`; unknown ids leave it as is.
pub open spec fn spec_apply_field(t: Tracker, id: u16, d: Seq<u8>) -> Result<Tracker, PsnError> {
    if id == 0 {
        match spec_read_vec3(d) {
            Ok(v) => Ok(Tracker { position: Some(v), ..t }),
            Err(e) => Err(e),
        }
    } else if id == 1 {
        match spec_read_vec3(d) {
            Ok(v) => Ok(Tracker { speed: Some(v), ..t }),
            Err(e) => Err(e),
        }
    } else if id == 2 {
        match spec_read_vec3(d) {
            Ok(v) => Ok(Tracker { orientation: Some(v), ..t }),
            Err(e) => Err(e),
        }
    } else if id == 3 {
        match spec_read_float_bits(d) {
            Ok(v) => Ok(Tracker { status: Some(v), ..t }),
            Err(e) => Err(e),
        }
    } else if id == 4 {
        match spec_read_vec3(d) {
            Ok(v) => Ok(Tracker { acceleration: Some(v), ..t }),
            Err(e) => Err(e),
        }
    } else if id == 5 {
        match spec_read_vec3(d) {
            Ok(v) => Ok(Tracker { target_position: Some(v), ..t }),
            Err(e) => Err(e),
        }
    } else if id == 6 {
        match spec_read_u64(d) {
            Ok(v) => Ok(Tracker { timestamp_us: Some(v), ..t }),
            Err(e) => Err(e),
        }
    } else {
        Ok(t)
    }
}

/// `t` after the field chunks of `data` from `pos` on.
pub open spec fn spec_tracker_fields(data: Seq<u8>, pos: int, t: Tracker) -> Result<Tracker, PsnError>
    decreases data.len() - pos,
{
    if pos < 0 || pos >= data.len() {
        Ok(t)
    } else {
        match spec_chunk_at(data, 0, pos) {
            Err(e) => Err(e),
            Ok(h) => match spec_apply_field(t, h.id, spec_chunk_data(data, pos)) {
                Err(e) => Err(e),
                Ok(t2) => spec_tracker_fields(data, spec_chunk_end(data, pos), t2),
            },
        }
    }
}

/// The tracker with `id` whose field chunks are `data`.
pub open spec fn spec_tracker(id: u16, data: Seq<u8>) -> Result<Tracker, PsnError> {
    spec_tracker_fields(data, 0, empty_tracker(id))
}

impl Tracker {
    fn decode(id: u16, data: &[u8]) -> (r: Result<Self, PsnError>)
        ensures
            r == spec_tracker(id, data@),
    {
        let mut t = Tracker {
            id,
            position: None,
            speed: None,
            orientation: None,
            status: None,
            acceleration: None,
            target_position: None,
            timestamp_us: None,
        };
        let mut reader = ChunkReader::new(data);
        loop
            invariant
                reader.wf(),
                0 <= reader.position() <= data@.len(),
                reader.buffer() == data@,
                reader.base() == 0,
                !reader.is_done(),
                spec_tracker(id, data@) == spec_tracker_fields(data@, reader.position(), t),
            ensures
                reader.position() >= data@.len(),
                spec_tracker(id, data@) == spec_tracker_fields(data@, reader.position(), t),
            decreases data@.len() - reader.position(),
        {
            let ghost pos = reader.position();
            let chunk = match reader.next() {
                None => break,
                Some(Err(e)) => return Err(e),
                Some(Ok(c)) => c,
            };
            proof {
                assert(0 <= pos < data@.len());
                assert(spec_chunk_at(data@, 0, pos) == Ok::<super::chunk::ChunkHeader, PsnError>(chunk.header));
                assert(chunk.data@ == spec_chunk_data(data@, pos));
                assert(reader.position() == spec_chunk_end(data@, pos));
                assert(spec_tracker_fields(data@, pos, t) == match spec_apply_field(
                    t,
                    chunk.header.id,
                    chunk.data@,
                ) {
                    Err(e) => Err(e),
                    Ok(t2) => spec_tracker_fields(data@, reader.position(), t2),
                });
            }
            let mut c = Cursor::new(chunk.data);
            match chunk.header.id {
                TRACKER_POS => t.position = Some(c.vec3()?),
                TRACKER_SPEED => t.speed = Some(c.vec3()?),
                TRACKER_ORI => t.orientation = Some(c.vec3()?),
                TRACKER_STATUS => t.status = Some(c.float_bits()?),
                TRACKER_ACCEL => t.acceleration = Some(c.vec3()?),
                TRACKER_TRGTPOS => t.target_position = Some(c.vec3()?),
                TRACKER_TIMESTAMP => t.timestamp_us = Some(c.u64()?),
                // Unknown future sub-chunks are skipped, not fatal.
                _ => {},
            }
        }
        Ok(t)
    }
}

/// A fully decoded `PSN_DATA` packet.
#[derive(Debug, Clone, PartialEq)]
pub struct DataPacket {
    /// Packet header (may be absent on malformed senders; required by spec).
    pub header: Option<DataHeader>,
    /// Trackers present in this datagram.
    pub trackers: Vec<Tracker>,
}

/// What a data packet holds, as plain values.
#[verifier::ext_equal]
pub struct DataModel {
    pub header: Option<DataHeader>,
    pub trackers: Seq<Tracker>,
}

impl View for DataPacket {
    type V = DataModel;

    open spec fn view(&self) -> DataModel {
        DataModel { header: self.header, trackers: self.trackers@ }
    }
}

/// `acc` followed by the trackers of the tracker-list data `list` from `pos`
/// on.
pub open spec fn spec_trackers(list: Seq<u8>, pos: int, acc: Seq<Tracker>) -> Result<
    Seq<Tracker>,
    PsnError,
>
    decreases list.len() - pos,
{
    if pos < 0 || pos >= list.len() {
        Ok(acc)
    } else {
        match spec_chunk_at(list, 0, pos) {
            Err(e) => Err(e),
            Ok(h) => match spec_tracker(h.id, spec_chunk_data(list, pos)) {
                Err(e) => Err(e),
                Ok(t) => spec_trackers(list, spec_chunk_end(list, pos), acc.push(t)),
            },
        }
    }
}

/// The packet that the chunks of `body` from `pos` on make of `acc`.
pub open spec fn spec_data_from(body: Seq<u8>, pos: int, acc: DataModel) -> Result<
    DataModel,
    PsnError,
>
    decreases body.len() - pos,
{
    if pos < 0 || pos >= body.len() {
        Ok(acc)
    } else {
        match spec_chunk_at(body, 0, pos) {
            Err(e) => Err(e),
            Ok(h) => {
                let d = spec_chunk_data(body, pos);
                let next = spec_chunk_end(body, pos);
                if h.id == 0 {
                    match spec_data_header(d) {
                        Err(e) => Err(e),
                        Ok(dh) => spec_data_from(
                            body,
                            next,
                            DataModel { header: Some(dh), trackers: acc.trackers },
                        ),
                    }
                } else if h.id == 1 {
                    match spec_trackers(d, 0, acc.trackers) {
                        Err(e) => Err(e),
                        Ok(ts) => spec_data_from(
                            body,
                            next,
                            DataModel { header: acc.header, trackers: ts },
                        ),
                    }
                } else {
                    spec_data_from(body, next, acc)
                }
            },
        }
    }
}

/// The data packet that the body of a `PSN_DATA` chunk holds.
pub open spec fn spec_decode_data(body: Seq<u8>) -> Result<DataModel, PsnError> {
    spec_data_from(body, 0, DataModel { header: None, trackers: Seq::empty() })
}

/// A decode result taken by its model.
pub open spec fn data_result(r: Result<DataPacket, PsnError>) -> Result<DataModel, PsnError> {
    match r {
        Ok(p) => Ok(p@),
        Err(e) => Err(e),
    }
}

impl DataPacket {
    /// Decode the body of a `PSN_DATA_PACKET` (the bytes inside the root
    /// chunk).
    pub fn decode(body: &[u8]) -> (r: Result<Self, PsnError>)
        ensures
            data_result(r) == spec_decode_data(body@),
    {
        let mut header: Option<DataHeader> = None;
        let mut trackers: Vec<Tracker> = Vec::new();
        let mut reader = ChunkReader::new(body);
        loop
            invariant
                reader.wf(),
                0 <= reader.position() <= body@.len(),
                reader.buffer() == body@,
                reader.base() == 0,
                !reader.is_done(),
                spec_decode_data(body@) == spec_data_from(
                    body@,
                    reader.position(),
                    DataModel { header, trackers: trackers@ },
                ),
            ensures
                reader.position() >= body@.len(),
                spec_decode_data(body@) == spec_data_from(
                    body@,
                    reader.position(),
                    DataModel { header, trackers: trackers@ },
                ),
            decreases body@.len() - reader.position(),
        {
            let ghost pos = reader.position();
            let chunk = match reader.next() {
                None => break,
                Some(Err(e)) => return Err(e),
                Some(Ok(c)) => c,
            };
            proof {
                let acc = DataModel { header, trackers: trackers@ };
                let next = reader.position();
                assert(spec_data_from(body@, pos, acc) == if chunk.header.id == 0 {
                    match spec_data_header(chunk.data@) {
                        Err(e) => Err(e),
                        Ok(dh) => spec_data_from(
                            body@,
                            next,
                            DataModel { header: Some(dh), trackers: acc.trackers },
                        ),
                    }
                } else if chunk.header.id == 1 {
                    match spec_trackers(chunk.data@, 0, acc.trackers) {
                        Err(e) => Err(e),
                        Ok(ts) => spec_data_from(
                            body@,
                            next,
                            DataModel { header: acc.header, trackers: ts },
                        ),
                    }
                } else {
                    spec_data_from(body@, next, acc)
                });
            }
            match chunk.header.id {
                DATA_PACKET_HEADER => header = Some(DataHeader::decode(chunk.data)?),
                DATA_TRACKER_LIST => {
                    let mut list = chunk.children();
                    let ghost start = trackers@;
                    loop
                        invariant
                            list.wf(),
                            0 <= list.position() <= chunk.data@.len(),
                            list.buffer() == chunk.data@,
                            list.base() == 0,
                            !list.is_done(),
                            spec_trackers(chunk.data@, 0, start) == spec_trackers(
                                chunk.data@,
                                list.position(),
                                trackers@,
                            ),
                            spec_decode_data(body@) == match spec_trackers(chunk.data@, 0, start) {
                                Err(e) => Err(e),
                                Ok(ts) => spec_data_from(
                                    body@,
                                    reader.position(),
                                    DataModel { header, trackers: ts },
                                ),
                            },
                        ensures
                            list.position() >= chunk.data@.len(),
                            spec_trackers(chunk.data@, 0, start) == spec_trackers(
                                chunk.data@,
                                list.position(),
                                trackers@,
                            ),
                        decreases chunk.data@.len() - list.position(),
                    {
                        let ghost lpos = list.position();
                        let tc = match list.next() {
                            None => break,
                            Some(Err(e)) => return Err(e),
                            Some(Ok(c)) => c,
                        };
                        proof {
                            assert(spec_trackers(chunk.data@, lpos, trackers@) == match spec_tracker(
                                tc.header.id,
                                tc.data@,
                            ) {
                                Err(e) => Err(e),
                                Ok(t) => spec_trackers(
                                    chunk.data@,
                                    list.position(),
                                    trackers@.push(t),
                                ),
                            });
                        }
                        let t = Tracker::decode(tc.header.id, tc.data)?;
                        trackers.push(t);
                    }
                },
                _ => {},
            }
        }
        Ok(Self { header, trackers })
    }
}

} // verus!
