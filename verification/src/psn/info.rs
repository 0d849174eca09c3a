//! `PSN_INFO` packet: system name and tracker names.
//!
//! ```text
//! PSN_INFO_PACKET (0x6756) [subchunks]
//! ├─ PSN_INFO_PACKET_HEADER (0x0000)   (same layout as the data header)
//! ├─ PSN_INFO_SYSTEM_NAME   (0x0001)   UTF-8 string
//! └─ PSN_INFO_TRACKER_LIST  (0x0002) [subchunks]
//!    └─ <tracker_id> [subchunks]
//!       └─ PSN_INFO_TRACKER_NAME (0x0000)  UTF-8 string
//! ```
use super::chunk::{spec_chunk_at, spec_chunk_data, spec_chunk_end, ChunkReader};
use super::read::{eof, spec_utf8_string, utf8_string, Cursor};
use super::PsnError;
use crate::bytes::le64_at;
use vstd::prelude::*;

verus! {

pub const INFO_PACKET_HEADER: u16 = 0x0000;

pub const INFO_SYSTEM_NAME: u16 = 0x0001;

pub const INFO_TRACKER_LIST: u16 = 0x0002;

pub const INFO_TRACKER_NAME: u16 = 0x0000;

/// The `PSN_INFO_PACKET_HEADER`, identical in layout to the data header.
#[derive(Debug, Clone, Copy, PartialEq, Eq, Structural)]
pub struct InfoHeader {
    /// Server send timestamp, microseconds.
    pub timestamp_us: u64,
    /// High byte of the protocol version.
    pub version_high: u8,
    /// Low byte of the protocol version.
    pub version_low: u8,
    /// Frame id.
    pub frame_id: u8,
    /// Number of UDP packets in this info frame.
    pub frame_packet_count: u8,
}

/// The info header that a header chunk's data holds.
pub open spec fn spec_info_header(d: Seq<u8>) -> Result<InfoHeader, PsnError> {
    if d.len() < 8 {
        Err(eof(0, 8 - d.len()))
    } else if d.len() < 9 {
        Err(eof(8, 1))
    } else if d.len() < 10 {
        Err(eof(9, 1))
    } else if d.len() < 11 {
        Err(eof(10, 1))
    } else if d.len() < 12 {
        Err(eof(11, 1))
    } else {
        Ok(
            InfoHeader {
                timestamp_us: le64_at(d, 0),
                version_high: d[8],
                version_low: d[9],
                frame_id: d[10],
                frame_packet_count: d[11],
            },
        )
    }
}

impl InfoHeader {
    fn decode(data: &[u8]) -> (r: Result<Self, PsnError>)
        ensures
            r == spec_info_header(data@),
    {
        let mut c = Cursor::new(data);
        Ok(
            Self {
                timestamp_us: c.u64()?,
                version_high: c.u8()?,
                version_low: c.u8()?,
                frame_id: c.u8()?,
                frame_packet_count: c.u8()?,
            },
        )
    }
}

/// A tracker's advertised name.
#[derive(Debug, Clone, PartialEq, Eq)]
pub struct TrackerInfo {
    /// Tracker id (the sub-chunk id within the tracker list).
    pub id: u16,
    /// Human-readable tracker name, if present.
    pub name: Option<String>,
}

/// The characters of an optional string.
pub open spec fn opt_chars(s: Option<String>) -> Option<Seq<char>> {
    match s {
        Some(x) => Some(x@),
        None => None,
    }
}

/// What a tracker's name advertisement holds, as plain values.
#[verifier::ext_equal]
pub struct TrackerInfoModel {
    pub id: u16,
    pub name: Option<Seq<char>>,
}

impl View for TrackerInfo {
    type V = TrackerInfoModel;

    open spec fn view(&self) -> TrackerInfoModel {
        TrackerInfoModel { id: self.id, name: opt_chars(self.name) }
    }
}

/// A fully decoded `PSN_INFO` packet.
#[derive(Debug, Clone, PartialEq)]
pub struct InfoPacket {
    /// Packet header, if present.
    pub header: Option<InfoHeader>,
    /// The system / server name, if present.
    pub system_name: Option<String>,
    /// Per-tracker name advertisements.
    pub trackers: Vec<TrackerInfo>,
}

/// What an info packet holds, as plain values.
#[verifier::ext_equal]
pub struct InfoModel {
    pub header: Option<InfoHeader>,
    pub system_name: Option<Seq<char>>,
    pub trackers: Seq<TrackerInfoModel>,
}

/// The trackers of an info packet, each by its model.
pub open spec fn tracker_infos_model(ts: Seq<TrackerInfo>) -> Seq<TrackerInfoModel> {
    ts.map_values(|t: TrackerInfo| t@)
}

impl View for InfoPacket {
    type V = InfoModel;

    open spec fn view(&self) -> InfoModel {
        InfoModel {
            header: self.header,
            system_name: opt_chars(self.system_name),
            trackers: tracker_infos_model(self.trackers@),
        }
    }
}

/// The name that the field chunks of a tracker's data from `pos` on give,
/// starting from `name`: the last name chunk wins.
pub open spec fn spec_tracker_name(data: Seq<u8>, pos: int, name: Option<Seq<char>>) -> Result<
    Option<Seq<char>>,
    PsnError,
>
    decreases data.len() - pos,
{
    if pos < 0 || pos >= data.len() {
        Ok(name)
    } else {
        match spec_chunk_at(data, 0, pos) {
            Err(e) => Err(e),
            Ok(h) => if h.id == 0 {
                match spec_utf8_string(spec_chunk_data(data, pos)) {
                    Err(e) => Err(e),
                    Ok(s) => spec_tracker_name(data, spec_chunk_end(data, pos), Some(s)),
                }
            } else {
                spec_tracker_name(data, spec_chunk_end(data, pos), name)
            },
        }
    }
}

/// `acc` followed by the tracker names of the tracker-list data `list` from
/// `pos` on.
pub open spec fn spec_tracker_infos(list: Seq<u8>, pos: int, acc: Seq<TrackerInfoModel>) -> Result<
    Seq<TrackerInfoModel>,
    PsnError,
>
    decreases list.len() - pos,
{
    if pos < 0 || pos >= list.len() {
        Ok(acc)
    } else {
        match spec_chunk_at(list, 0, pos) {
            Err(e) => Err(e),
            Ok(h) => match spec_tracker_name(spec_chunk_data(list, pos), 0, None) {
                Err(e) => Err(e),
                Ok(name) => spec_tracker_infos(
                    list,
                    spec_chunk_end(list, pos),
                    acc.push(TrackerInfoModel { id: h.id, name }),
                ),
            },
        }
    }
}

/// The packet that the chunks of `body` from `pos` on make of `acc`.
pub open spec fn spec_info_from(body: Seq<u8>, pos: int, acc: InfoModel) -> Result<
    InfoModel,
    PsnError,
>
    decreases body.len() - pos,
{
    if pos < 0 || pos >= body.len() {
        Ok(acc)
    } else {
        match spec_chunk_at(body, 0, pos) {
            Err(e) => Err(e),
            Ok(h) => {
                let d = spec_chunk_data(body, pos);
                let next = spec_chunk_end(body, pos);
                if h.id == 0 {
                    match spec_info_header(d) {
                        Err(e) => Err(e),
                        Ok(ih) => spec_info_from(body, next, InfoModel { header: Some(ih), ..acc }),
                    }
                } else if h.id == 1 {
                    match spec_utf8_string(d) {
                        Err(e) => Err(e),
                        Ok(s) => spec_info_from(
                            body,
                            next,
                            InfoModel { system_name: Some(s), ..acc },
                        ),
                    }
                } else if h.id == 2 {
                    match spec_tracker_infos(d, 0, acc.trackers) {
                        Err(e) => Err(e),
                        Ok(ts) => spec_info_from(body, next, InfoModel { trackers: ts, ..acc }),
                    }
                } else {
                    spec_info_from(body, next, acc)
                }
            },
        }
    }
}

/// The info packet that the body of a `PSN_INFO` chunk holds.
pub open spec fn spec_decode_info(body: Seq<u8>) -> Result<InfoModel, PsnError> {
    spec_info_from(
        body,
        0,
        InfoModel { header: None, system_name: None, trackers: Seq::empty() },
    )
}

/// A decode result taken by its model.
pub open spec fn info_result(r: Result<InfoPacket, PsnError>) -> Result<InfoModel, PsnError> {
    match r {
        Ok(p) => Ok(p@),
        Err(e) => Err(e),
    }
}

/// The name of the tracker whose field chunks are `data`.
fn decode_tracker_name(data: &[u8]) -> (r: Result<Option<String>, PsnError>)
    ensures
        match r {
            Ok(n) => spec_tracker_name(data@, 0, None) == Ok::<Option<Seq<char>>, PsnError>(
                opt_chars(n),
            ),
            Err(e) => spec_tracker_name(data@, 0, None) == Err::<Option<Seq<char>>, PsnError>(e),
        },
{
    let mut name: Option<String> = None;
    let mut fields = ChunkReader::new(data);
    loop
        invariant
            fields.wf(),
            0 <= fields.position() <= data@.len(),
            fields.buffer() == data@,
            fields.base() == 0,
            !fields.is_done(),
            spec_tracker_name(data@, 0, None) == spec_tracker_name(
                data@,
                fields.position(),
                opt_chars(name),
            ),
        ensures
            fields.position() >= data@.len(),
            spec_tracker_name(data@, 0, None) == spec_tracker_name(
                data@,
                fields.position(),
                opt_chars(name),
            ),
        decreases data@.len() - fields.position(),
    {
        let field = match fields.next() {
            None => break,
            Some(Err(e)) => return Err(e),
            Some(Ok(c)) => c,
        };
        if field.header.id == INFO_TRACKER_NAME {
            name = Some(utf8_string(field.data)?);
        }
    }
    Ok(name)
}

impl InfoPacket {
    /// Decode the body of a `PSN_INFO_PACKET` (the bytes inside the root
    /// chunk).
    pub fn decode(body: &[u8]) -> (r: Result<Self, PsnError>)
        ensures
            info_result(r) == spec_decode_info(body@),
    {
        let mut header: Option<InfoHeader> = None;
        let mut system_name: Option<String> = None;
        let mut trackers: Vec<TrackerInfo> = Vec::new();
        let mut reader = ChunkReader::new(body);
        assert(tracker_infos_model(trackers@) =~= Seq::<TrackerInfoModel>::empty());
        loop
            invariant
                reader.wf(),
                0 <= reader.position() <= body@.len(),
                reader.buffer() == body@,
                reader.base() == 0,
                !reader.is_done(),
                spec_decode_info(body@) == spec_info_from(
                    body@,
                    reader.position(),
                    InfoModel {
                        header,
                        system_name: opt_chars(system_name),
                        trackers: tracker_infos_model(trackers@),
                    },
                ),
            ensures
                reader.position() >= body@.len(),
                spec_decode_info(body@) == spec_info_from(
                    body@,
                    reader.position(),
                    InfoModel {
                        header,
                        system_name: opt_chars(system_name),
                        trackers: tracker_infos_model(trackers@),
                    },
                ),
            decreases body@.len() - reader.position(),
        {
            let ghost pos = reader.position();
            let chunk = match reader.next() {
                None => break,
                Some(Err(e)) => return Err(e),
                Some(Ok(c)) => c,
            };
            match chunk.header.id {
                INFO_PACKET_HEADER => header = Some(InfoHeader::decode(chunk.data)?),
                INFO_SYSTEM_NAME => system_name = Some(utf8_string(chunk.data)?),
                INFO_TRACKER_LIST => {
                    let mut list = chunk.children();
                    let ghost start = tracker_infos_model(trackers@);
                    proof {
                        let acc = InfoModel {
                            header,
                            system_name: opt_chars(system_name),
                            trackers: start,
                        };
                        assert(spec_info_from(body@, pos, acc) == match spec_tracker_infos(
                            chunk.data@,
                            0,
                            start,
                        ) {
                            Err(e) => Err(e),
                            Ok(ts) => spec_info_from(
                                body@,
                                reader.position(),
                                InfoModel { trackers: ts, ..acc },
                            ),
                        });
                    }
                    loop
                        invariant
                            list.wf(),
                            0 <= list.position() <= chunk.data@.len(),
                            list.buffer() == chunk.data@,
                            list.base() == 0,
                            !list.is_done(),
                            spec_tracker_infos(chunk.data@, 0, start) == spec_tracker_infos(
                                chunk.data@,
                                list.position(),
                                tracker_infos_model(trackers@),
                            ),
                            spec_decode_info(body@) == match spec_tracker_infos(
                                chunk.data@,
                                0,
                                start,
                            ) {
                                Err(e) => Err(e),
                                Ok(ts) => spec_info_from(
                                    body@,
                                    reader.position(),
                                    InfoModel {
                                        header,
                                        system_name: opt_chars(system_name),
                                        trackers: ts,
                                    },
                                ),
                            },
                        ensures
                            list.position() >= chunk.data@.len(),
                            spec_tracker_infos(chunk.data@, 0, start) == spec_tracker_infos(
                                chunk.data@,
                                list.position(),
                                tracker_infos_model(trackers@),
                            ),
                        decreases chunk.data@.len() - list.position(),
                    {
                        let tc = match list.next() {
                            None => break,
                            Some(Err(e)) => return Err(e),
                            Some(Ok(c)) => c,
                        };
                        let name = decode_tracker_name(tc.data)?;
                        let ghost before = tracker_infos_model(trackers@);
                        let info = TrackerInfo { id: tc.header.id, name };
                        trackers.push(info);
                        assert(tracker_infos_model(trackers@) =~= before.push(info@));
                    }
                },
                _ => {},
            }
        }
        Ok(Self { header, system_name, trackers })
    }
}

} // verus!
