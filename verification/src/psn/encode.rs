//! PSN encoders: build `PSN_DATA` / `PSN_INFO` datagrams from the typed
//! structs; the inverse of decoding. Each produces a single datagram.
use super::chunk::{
    spec_chunk_at, spec_chunk_data, spec_chunk_end, spec_chunk_header, spec_chunk_items, ChunkHeader,
    ChunkItem,
};
use super::data::{
    empty_tracker, spec_apply_field, spec_data_from, spec_data_header, spec_decode_data,
    spec_tracker, spec_tracker_fields, spec_trackers, DataHeader, DataModel, DataPacket, Tracker,
};
use super::info::{
    opt_chars, spec_decode_info, spec_info_from, spec_info_header, spec_tracker_infos,
    spec_tracker_name, tracker_infos_model, InfoHeader, InfoModel, InfoPacket, TrackerInfo,
    TrackerInfoModel,
};
use super::read::{spec_read_float_bits, spec_read_u64, spec_read_vec3, spec_utf8_string};
use super::{spec_decode_packet, PacketModel, PsnError, Vec3, PSN_DATA_PACKET, PSN_INFO_PACKET};
use crate::bytes::{
    le16_bytes, le32_bytes, le64_bytes, lemma_le16_read, lemma_le32_read, lemma_le64_read,
    lemma_split_tail, lemma_window, push_all, push_le16, push_le32, push_le64,
};
use vstd::prelude::*;
use vstd::string::StringSliceAdditionalSpecFns;
use vstd::utf8::{encode_utf8, encode_utf8_decode_utf8, encode_utf8_valid_utf8};

verus! {

// ---------------------------------------------------------------------------
// What the encoders write
// ---------------------------------------------------------------------------

/// The second header word of a chunk: the data length in bits 0..=14
/// (truncated to 15 bits) and the sub-chunk flag in bit 15.
pub open spec fn spec_packed(len: nat, sub: bool) -> u16 {
    if sub {
        (((len as u16) & 0x7FFFu16) | 0x8000u16) as u16
    } else {
        ((len as u16) & 0x7FFFu16) as u16
    }
}

/// A chunk: id, packed length word, data.
pub open spec fn chunk_bytes(id: u16, sub: bool, data: Seq<u8>) -> Seq<u8> {
    le16_bytes(id) + le16_bytes(spec_packed(data.len(), sub)) + data
}

/// The twelve little-endian bytes of a vector.
pub open spec fn spec_vec3_bytes(v: Vec3) -> Seq<u8> {
    le32_bytes(v.x) + le32_bytes(v.y) + le32_bytes(v.z)
}

/// The twelve bytes of a packet header.
pub open spec fn spec_header_bytes(h: DataHeader) -> Seq<u8> {
    le64_bytes(h.timestamp_us) + seq![h.version_high, h.version_low, h.frame_id, h.frame_packet_count]
}

/// The header written when a data packet has none: PSN v2.0, one packet per
/// frame.
/// The header that a data packet without one is sent with.
pub open spec fn spec_default_header() -> DataHeader {
    DataHeader { timestamp_us: 0, version_high: 2, version_low: 0, frame_id: 0, frame_packet_count: 1 }
}

/// `h`, or the default header where there is none.
pub open spec fn header_or_default(h: Option<DataHeader>) -> DataHeader {
    match h {
        Some(x) => x,
        None => spec_default_header(),
    }
}

/// The chunk of tracker field `k` (0 position ... 6 timestamp), empty when
/// the tracker lacks that field.
#[verifier::opaque]
pub open spec fn field_chunk(t: Tracker, k: int) -> Seq<u8> {
    if k == 0 {
        match t.position {
            Some(v) => chunk_bytes(0, false, spec_vec3_bytes(v)),
            None => Seq::empty(),
        }
    } else if k == 1 {
        match t.speed {
            Some(v) => chunk_bytes(1, false, spec_vec3_bytes(v)),
            None => Seq::empty(),
        }
    } else if k == 2 {
        match t.orientation {
            Some(v) => chunk_bytes(2, false, spec_vec3_bytes(v)),
            None => Seq::empty(),
        }
    } else if k == 3 {
        match t.status {
            Some(b) => chunk_bytes(3, false, le32_bytes(b)),
            None => Seq::empty(),
        }
    } else if k == 4 {
        match t.acceleration {
            Some(v) => chunk_bytes(4, false, spec_vec3_bytes(v)),
            None => Seq::empty(),
        }
    } else if k == 5 {
        match t.target_position {
            Some(v) => chunk_bytes(5, false, spec_vec3_bytes(v)),
            None => Seq::empty(),
        }
    } else if k == 6 {
        match t.timestamp_us {
            Some(x) => chunk_bytes(6, false, le64_bytes(x)),
            None => Seq::empty(),
        }
    } else {
        Seq::empty()
    }
}

/// The field chunks of a tracker from field `k` on, in field order.
pub open spec fn fields_from(t: Tracker, k: int) -> Seq<u8>
    decreases 7 - k,
{
    if k >= 7 {
        Seq::empty()
    } else {
        field_chunk(t, k) + fields_from(t, k + 1)
    }
}

/// The data of a tracker's chunk: its present fields, in field order.
pub open spec fn spec_tracker_body(t: Tracker) -> Seq<u8> {
    fields_from(t, 0)
}

/// The chunks of a tracker list, one tracker after the other.
pub open spec fn spec_tracker_list(ts: Seq<Tracker>) -> Seq<u8>
    decreases ts.len(),
{
    if ts.len() == 0 {
        Seq::empty()
    } else {
        spec_tracker_list(ts.drop_last()) + chunk_bytes(
            ts.last().id,
            true,
            spec_tracker_body(ts.last()),
        )
    }
}

/// The datagram of a data packet: header chunk (the default header when the
/// packet has none), then the tracker-list chunk, inside the root chunk.
pub open spec fn spec_encode_data(p: DataModel) -> Seq<u8> {
    chunk_bytes(
        0x6755,
        true,
        chunk_bytes(0, false, spec_header_bytes(header_or_default(p.header))) + chunk_bytes(
            1,
            true,
            spec_tracker_list(p.trackers),
        ),
    )
}

/// An info header as the data header with the same fields.
pub open spec fn info_as_data_header(h: InfoHeader) -> DataHeader {
    DataHeader {
        timestamp_us: h.timestamp_us,
        version_high: h.version_high,
        version_low: h.version_low,
        frame_id: h.frame_id,
        frame_packet_count: h.frame_packet_count,
    }
}

/// The data of a tracker's name chunk list: the name chunk, if any.
pub open spec fn spec_info_tracker_body(t: TrackerInfoModel) -> Seq<u8> {
    match t.name {
        Some(n) => chunk_bytes(0, false, encode_utf8(n)),
        None => Seq::empty(),
    }
}

/// The tracker chunks of an info packet's tracker list.
pub open spec fn spec_info_list(ts: Seq<TrackerInfoModel>) -> Seq<u8>
    decreases ts.len(),
{
    if ts.len() == 0 {
        Seq::empty()
    } else {
        spec_info_list(ts.drop_last()) + chunk_bytes(
            ts.last().id,
            true,
            spec_info_tracker_body(ts.last()),
        )
    }
}

/// The header chunk of an info packet, if it has a header.
pub open spec fn spec_info_header_chunk(h: Option<InfoHeader>) -> Seq<u8> {
    match h {
        Some(x) => chunk_bytes(0, false, spec_header_bytes(info_as_data_header(x))),
        None => Seq::empty(),
    }
}

/// The system-name chunk of an info packet, if it has a name.
pub open spec fn spec_system_name_chunk(n: Option<Seq<char>>) -> Seq<u8> {
    match n {
        Some(s) => chunk_bytes(1, false, encode_utf8(s)),
        None => Seq::empty(),
    }
}

/// The datagram of an info packet: header chunk and system-name chunk when
/// present, then the tracker-list chunk, inside the root chunk.
pub open spec fn spec_encode_info(p: InfoModel) -> Seq<u8> {
    chunk_bytes(
        0x6756,
        true,
        spec_info_header_chunk(p.header) + spec_system_name_chunk(p.system_name) + chunk_bytes(
            2,
            true,
            spec_info_list(p.trackers),
        ),
    )
}

// ---------------------------------------------------------------------------
// Encoders
// ---------------------------------------------------------------------------

/// Append a PSN chunk (little-endian header + data) to `out`. The length is
/// truncated to 15 bits.
fn write_chunk(out: &mut Vec<u8>, id: u16, has_subchunks: bool, data: &[u8])
    ensures
        final(out)@ == old(out)@ + chunk_bytes(id, has_subchunks, data@),
{
    push_le16(out, id);
    let mut packed: u16 = (data.len() as u16) & 0x7FFF;
    if has_subchunks {
        packed = packed | 0x8000;
    }
    push_le16(out, packed);
    push_all(out, data);
    assert(out@ =~= old(out)@ + chunk_bytes(id, has_subchunks, data@));
}

fn vec3_bytes(v: Vec3) -> (b: Vec<u8>)
    ensures
        b@ == spec_vec3_bytes(v),
{
    let mut b: Vec<u8> = Vec::new();
    push_le32(&mut b, v.x);
    push_le32(&mut b, v.y);
    push_le32(&mut b, v.z);
    assert(b@ =~= spec_vec3_bytes(v));
    b
}

fn header_bytes(h: &DataHeader) -> (v: Vec<u8>)
    ensures
        v@ == spec_header_bytes(*h),
{
    let mut v: Vec<u8> = Vec::new();
    push_le64(&mut v, h.timestamp_us);
    v.push(h.version_high);
    v.push(h.version_low);
    v.push(h.frame_id);
    v.push(h.frame_packet_count);
    assert(v@ =~= spec_header_bytes(*h));
    v
}

/// Default header for PSN v2 (`version 2.0`, single-packet frame).
fn default_header() -> (h: DataHeader)
    ensures
        h == spec_default_header(),
{
    DataHeader { timestamp_us: 0, version_high: 2, version_low: 0, frame_id: 0, frame_packet_count: 1 }
}

proof fn lemma_fields_flat(t: Tracker)
    ensures
        fields_from(t, 0) == field_chunk(t, 0) + field_chunk(t, 1) + field_chunk(t, 2) + field_chunk(
            t,
            3,
        ) + field_chunk(t, 4) + field_chunk(t, 5) + field_chunk(t, 6),
{
    let f0 = field_chunk(t, 0);
    let f1 = field_chunk(t, 1);
    let f2 = field_chunk(t, 2);
    let f3 = field_chunk(t, 3);
    let f4 = field_chunk(t, 4);
    let f5 = field_chunk(t, 5);
    let f6 = field_chunk(t, 6);
    assert(fields_from(t, 7) =~= Seq::<u8>::empty());
    assert(fields_from(t, 6) =~= f6);
    assert(fields_from(t, 5) == f5 + fields_from(t, 6));
    assert(fields_from(t, 4) == f4 + fields_from(t, 5));
    assert(fields_from(t, 3) == f3 + fields_from(t, 4));
    assert(fields_from(t, 2) == f2 + fields_from(t, 3));
    assert(fields_from(t, 1) == f1 + fields_from(t, 2));
    assert(fields_from(t, 0) == f0 + fields_from(t, 1));
    assert(f5 + f6 =~= fields_from(t, 5));
    assert(f4 + f5 + f6 =~= fields_from(t, 4));
    assert(f3 + f4 + f5 + f6 =~= fields_from(t, 3));
    assert(f2 + f3 + f4 + f5 + f6 =~= fields_from(t, 2));
    assert(f1 + f2 + f3 + f4 + f5 + f6 =~= fields_from(t, 1));
    assert(f0 + f1 + f2 + f3 + f4 + f5 + f6 =~= fields_from(t, 0));
}

/// The field chunks of a tracker, in field order.
fn encode_tracker_fields(t: &Tracker) -> (body: Vec<u8>)
    ensures
        body@ == spec_tracker_body(*t),
{
    reveal(field_chunk);
    let mut body: Vec<u8> = Vec::new();
    if let Some(p) = t.position {
        write_chunk(&mut body, 0x0000, false, vec3_bytes(p).as_slice());
    }
    assert(body@ =~= field_chunk(*t, 0));
    if let Some(s) = t.speed {
        write_chunk(&mut body, 0x0001, false, vec3_bytes(s).as_slice());
    }
    assert(body@ =~= field_chunk(*t, 0) + field_chunk(*t, 1));
    if let Some(o) = t.orientation {
        write_chunk(&mut body, 0x0002, false, vec3_bytes(o).as_slice());
    }
    assert(body@ =~= field_chunk(*t, 0) + field_chunk(*t, 1) + field_chunk(*t, 2));
    if let Some(st) = t.status {
        let mut b: Vec<u8> = Vec::new();
        push_le32(&mut b, st);
        write_chunk(&mut body, 0x0003, false, b.as_slice());
    }
    assert(body@ =~= field_chunk(*t, 0) + field_chunk(*t, 1) + field_chunk(*t, 2) + field_chunk(
        *t,
        3,
    ));
    if let Some(a) = t.acceleration {
        write_chunk(&mut body, 0x0004, false, vec3_bytes(a).as_slice());
    }
    assert(body@ =~= field_chunk(*t, 0) + field_chunk(*t, 1) + field_chunk(*t, 2) + field_chunk(
        *t,
        3,
    ) + field_chunk(*t, 4));
    if let Some(tp) = t.target_position {
        write_chunk(&mut body, 0x0005, false, vec3_bytes(tp).as_slice());
    }
    assert(body@ =~= field_chunk(*t, 0) + field_chunk(*t, 1) + field_chunk(*t, 2) + field_chunk(
        *t,
        3,
    ) + field_chunk(*t, 4) + field_chunk(*t, 5));
    if let Some(ts) = t.timestamp_us {
        let mut b: Vec<u8> = Vec::new();
        push_le64(&mut b, ts);
        write_chunk(&mut body, 0x0006, false, b.as_slice());
    }
    assert(body@ =~= field_chunk(*t, 0) + field_chunk(*t, 1) + field_chunk(*t, 2) + field_chunk(
        *t,
        3,
    ) + field_chunk(*t, 4) + field_chunk(*t, 5) + field_chunk(*t, 6));
    proof {
        lemma_fields_flat(*t);
    }
    body
}

impl DataPacket {
    /// Encode this packet into a single `PSN_DATA` datagram. If `header` is
    /// `None`, a default PSN v2 header is written. Chunk lengths are
    /// truncated to 15 bits.
    pub fn encode(&self) -> (out: Vec<u8>)
        ensures
            out@ == spec_encode_data(self@),
    {
        let header = match self.header {
            Some(h) => h,
            None => default_header(),
        };
        let mut header_chunk: Vec<u8> = Vec::new();
        write_chunk(&mut header_chunk, 0x0000, false, header_bytes(&header).as_slice());
        let mut list: Vec<u8> = Vec::new();
        let mut i: usize = 0;
        while i < self.trackers.len()
            invariant
                i <= self.trackers@.len(),
                list@ == spec_tracker_list(self.trackers@.take(i as int)),
            decreases self.trackers@.len() - i,
        {
            let t = self.trackers[i];
            let body = encode_tracker_fields(&t);
            write_chunk(&mut list, t.id, true, body.as_slice());
            proof {
                let ts = self.trackers@.take(i + 1);
                assert(ts.drop_last() =~= self.trackers@.take(i as int));
                assert(ts.last() == t);
            }
            i = i + 1;
        }
        assert(self.trackers@.take(i as int) =~= self.trackers@);
        let mut list_chunk: Vec<u8> = Vec::new();
        write_chunk(&mut list_chunk, 0x0001, true, list.as_slice());
        let mut packet_body = header_chunk;
        push_all(&mut packet_body, list_chunk.as_slice());
        let mut out: Vec<u8> = Vec::new();
        write_chunk(&mut out, PSN_DATA_PACKET, true, packet_body.as_slice());
        assert(out@ =~= spec_encode_data(self@));
        out
    }
}

impl InfoPacket {
    /// Encode this packet into a single `PSN_INFO` datagram. Chunk lengths
    /// are truncated to 15 bits.
    pub fn encode(&self) -> (out: Vec<u8>)
        ensures
            out@ == spec_encode_info(self@),
    {
        let mut packet_body: Vec<u8> = Vec::new();
        if let Some(h) = self.header {
            // Info and data headers share a layout.
            let dh = DataHeader {
                timestamp_us: h.timestamp_us,
                version_high: h.version_high,
                version_low: h.version_low,
                frame_id: h.frame_id,
                frame_packet_count: h.frame_packet_count,
            };
            write_chunk(&mut packet_body, 0x0000, false, header_bytes(&dh).as_slice());
        }
        assert(packet_body@ =~= spec_info_header_chunk(self.header));
        if let Some(name) = &self.system_name {
            write_chunk(&mut packet_body, 0x0001, false, name.as_str().as_bytes());
        }
        assert(packet_body@ =~= spec_info_header_chunk(self.header) + spec_system_name_chunk(
            opt_chars(self.system_name),
        ));
        let ghost model = tracker_infos_model(self.trackers@);
        let mut list: Vec<u8> = Vec::new();
        let mut i: usize = 0;
        while i < self.trackers.len()
            invariant
                model == tracker_infos_model(self.trackers@),
                i <= self.trackers@.len(),
                list@ == spec_info_list(model.take(i as int)),
            decreases self.trackers@.len() - i,
        {
            let t = &self.trackers[i];
            let mut body: Vec<u8> = Vec::new();
            if let Some(name) = &t.name {
                write_chunk(&mut body, 0x0000, false, name.as_str().as_bytes());
            }
            assert(body@ =~= spec_info_tracker_body(t@));
            write_chunk(&mut list, t.id, true, body.as_slice());
            proof {
                let ts = model.take(i + 1);
                assert(ts.drop_last() =~= model.take(i as int));
                assert(ts.last() == t@);
            }
            i = i + 1;
        }
        assert(model.take(i as int) =~= model);
        let mut list_chunk: Vec<u8> = Vec::new();
        write_chunk(&mut list_chunk, 0x0002, true, list.as_slice());
        push_all(&mut packet_body, list_chunk.as_slice());
        let mut out: Vec<u8> = Vec::new();
        write_chunk(&mut out, PSN_INFO_PACKET, true, packet_body.as_slice());
        assert(out@ =~= spec_encode_info(self@));
        out
    }
}

// ---------------------------------------------------------------------------
// What is encoded decodes back
// ---------------------------------------------------------------------------

proof fn lemma_packed(len: nat, sub: bool)
    requires
        len <= 0x7FFF,
    ensures
        spec_packed(len, sub) & 0x7FFFu16 == len as u16,
        (spec_packed(len, sub) & 0x8000u16 != 0) == sub,
{
    let l = len as u16;
    assert(l <= 0x7FFF);
    assert((((l & 0x7FFFu16) | 0x8000u16) as u16) & 0x7FFFu16 == l) by (bit_vector)
        requires
            l <= 0x7FFF,
    ;
    assert(((((l & 0x7FFFu16) | 0x8000u16) as u16) & 0x8000u16) != 0) by (bit_vector);
    assert(((l & 0x7FFFu16) as u16) & 0x7FFFu16 == l) by (bit_vector)
        requires
            l <= 0x7FFF,
    ;
    assert((((l & 0x7FFFu16) as u16) & 0x8000u16) == 0) by (bit_vector);
}

/// A chunk written at `pos` reads back as that chunk.
proof fn lemma_chunk_read(s: Seq<u8>, base: int, pos: int, id: u16, sub: bool, d: Seq<u8>)
    requires
        0 <= pos,
        d.len() <= 0x7FFF,
        pos + chunk_bytes(id, sub, d).len() <= s.len(),
        s.subrange(pos, pos + chunk_bytes(id, sub, d).len()) == chunk_bytes(id, sub, d),
    ensures
        spec_chunk_at(s, base, pos) == Ok::<ChunkHeader, PsnError>(
            ChunkHeader { id, data_len: d.len() as u16, has_subchunks: sub },
        ),
        spec_chunk_data(s, pos) == d,
        spec_chunk_end(s, pos) == pos + 4 + d.len(),
{
    let c = chunk_bytes(id, sub, d);
    lemma_window(s, pos, c, 0, 2);
    assert(c.subrange(0, 2) =~= le16_bytes(id));
    lemma_le16_read(s, pos, id);
    lemma_window(s, pos, c, 2, 4);
    assert(c.subrange(2, 4) =~= le16_bytes(spec_packed(d.len(), sub)));
    lemma_le16_read(s, pos + 2, spec_packed(d.len(), sub));
    lemma_packed(d.len(), sub);
    lemma_window(s, pos, c, 4, c.len() as int);
    assert(c.subrange(4, c.len() as int) =~= d);
}

proof fn lemma_vec3_read(v: Vec3)
    ensures
        spec_read_vec3(spec_vec3_bytes(v)) == Ok::<Vec3, PsnError>(v),
{
    let b = spec_vec3_bytes(v);
    assert(b.subrange(0, 4) =~= le32_bytes(v.x));
    lemma_le32_read(b, 0, v.x);
    assert(b.subrange(4, 8) =~= le32_bytes(v.y));
    lemma_le32_read(b, 4, v.y);
    assert(b.subrange(8, 12) =~= le32_bytes(v.z));
    lemma_le32_read(b, 8, v.z);
}

proof fn lemma_float_bits_read(x: u32)
    ensures
        spec_read_float_bits(le32_bytes(x)) == Ok::<u32, PsnError>(x),
{
    let b = le32_bytes(x);
    assert(b.subrange(0, 4) =~= b);
    lemma_le32_read(b, 0, x);
}

proof fn lemma_u64_read(x: u64)
    ensures
        spec_read_u64(le64_bytes(x)) == Ok::<u64, PsnError>(x),
{
    let b = le64_bytes(x);
    assert(b.subrange(0, 8) =~= b);
    lemma_le64_read(b, 0, x);
}

proof fn lemma_header_read(h: DataHeader)
    ensures
        spec_data_header(spec_header_bytes(h)) == Ok::<DataHeader, PsnError>(h),
        spec_info_header(spec_header_bytes(h)) == Ok::<InfoHeader, PsnError>(
            InfoHeader {
                timestamp_us: h.timestamp_us,
                version_high: h.version_high,
                version_low: h.version_low,
                frame_id: h.frame_id,
                frame_packet_count: h.frame_packet_count,
            },
        ),
{
    let b = spec_header_bytes(h);
    assert(b.subrange(0, 8) =~= le64_bytes(h.timestamp_us));
    lemma_le64_read(b, 0, h.timestamp_us);
}

proof fn lemma_utf8_read(n: Seq<char>)
    ensures
        spec_utf8_string(encode_utf8(n)) == Ok::<Seq<char>, PsnError>(n),
{
    encode_utf8_valid_utf8(n);
    encode_utf8_decode_utf8(n);
}

/// `t` with only its fields before field `k` kept.
pub open spec fn keep_fields(t: Tracker, k: int) -> Tracker {
    Tracker {
        id: t.id,
        position: if k > 0 { t.position } else { None },
        speed: if k > 1 { t.speed } else { None },
        orientation: if k > 2 { t.orientation } else { None },
        status: if k > 3 { t.status } else { None },
        acceleration: if k > 4 { t.acceleration } else { None },
        target_position: if k > 5 { t.target_position } else { None },
        timestamp_us: if k > 6 { t.timestamp_us } else { None },
    }
}

/// Field `k` of a tracker: either absent, or a chunk whose data decodes to
/// the field.
proof fn lemma_field_chunk(t: Tracker, k: int) -> (d: Seq<u8>)
    requires
        0 <= k < 7,
    ensures
        field_chunk(t, k).len() == 0 ==> keep_fields(t, k) == keep_fields(t, k + 1),
        field_chunk(t, k).len() > 0 ==> {
            &&& field_chunk(t, k) == chunk_bytes(k as u16, false, d)
            &&& d.len() <= 12
            &&& spec_apply_field(keep_fields(t, k), k as u16, d) == Ok::<Tracker, PsnError>(
                keep_fields(t, k + 1),
            )
        },
{
    reveal(field_chunk);
    if k == 0 {
        if let Some(v) = t.position {
            lemma_vec3_read(v);
            return spec_vec3_bytes(v);
        }
    } else if k == 1 {
        if let Some(v) = t.speed {
            lemma_vec3_read(v);
            return spec_vec3_bytes(v);
        }
    } else if k == 2 {
        if let Some(v) = t.orientation {
            lemma_vec3_read(v);
            return spec_vec3_bytes(v);
        }
    } else if k == 3 {
        if let Some(x) = t.status {
            lemma_float_bits_read(x);
            return le32_bytes(x);
        }
    } else if k == 4 {
        if let Some(v) = t.acceleration {
            lemma_vec3_read(v);
            return spec_vec3_bytes(v);
        }
    } else if k == 5 {
        if let Some(v) = t.target_position {
            lemma_vec3_read(v);
            return spec_vec3_bytes(v);
        }
    } else {
        if let Some(x) = t.timestamp_us {
            lemma_u64_read(x);
            return le64_bytes(x);
        }
    }
    Seq::empty()
}

/// Decoding the field chunks from field `k` on completes the tracker.
proof fn lemma_tracker_fields(s: Seq<u8>, pos: int, t: Tracker, k: int)
    requires
        0 <= k <= 7,
        0 <= pos <= s.len(),
        s.len() <= 0x7FFF,
        s.subrange(pos, s.len() as int) == fields_from(t, k),
    ensures
        spec_tracker_fields(s, pos, keep_fields(t, k)) == Ok::<Tracker, PsnError>(t),
    decreases 7 - k,
{
    if k >= 7 {
        assert(fields_from(t, k).len() == 0);
        assert(keep_fields(t, k) == t);
    } else {
        let f = field_chunk(t, k);
        let rest = fields_from(t, k + 1);
        assert(fields_from(t, k) == f + rest);
        let end = pos + f.len();
        lemma_split_tail(s, pos, f, rest);
        let d = lemma_field_chunk(t, k);
        if f.len() == 0 {
            lemma_tracker_fields(s, pos, t, k + 1);
        } else {
            lemma_chunk_read(s, 0, pos, k as u16, false, d);
            lemma_tracker_fields(s, end, t, k + 1);
        }
    }
}

/// The chunks of a tracker list, split after the first tracker.
proof fn lemma_tracker_list_front(ts: Seq<Tracker>)
    requires
        ts.len() > 0,
    ensures
        spec_tracker_list(ts) == chunk_bytes(ts[0].id, true, spec_tracker_body(ts[0]))
            + spec_tracker_list(ts.drop_first()),
    decreases ts.len(),
{
    if ts.len() == 1 {
        assert(ts.drop_last() =~= Seq::<Tracker>::empty());
        assert(ts.drop_first() =~= Seq::<Tracker>::empty());
        assert(spec_tracker_list(ts) =~= chunk_bytes(ts[0].id, true, spec_tracker_body(ts[0]))
            + spec_tracker_list(ts.drop_first()));
    } else {
        lemma_tracker_list_front(ts.drop_last());
        assert(ts.drop_last().drop_first() =~= ts.drop_first().drop_last());
        assert(ts.drop_first().last() == ts.last());
        assert(ts.drop_last()[0] == ts[0]);
        assert(spec_tracker_list(ts) =~= chunk_bytes(ts[0].id, true, spec_tracker_body(ts[0]))
            + spec_tracker_list(ts.drop_first()));
    }
}

/// Decoding the chunks of a tracker list gives the trackers back.
proof fn lemma_trackers(s: Seq<u8>, pos: int, acc: Seq<Tracker>, ts: Seq<Tracker>)
    requires
        0 <= pos <= s.len(),
        s.len() <= 0x7FFF,
        s.subrange(pos, s.len() as int) == spec_tracker_list(ts),
    ensures
        spec_trackers(s, pos, acc) == Ok::<Seq<Tracker>, PsnError>(acc + ts),
    decreases ts.len(),
{
    if ts.len() == 0 {
        assert(spec_tracker_list(ts).len() == 0);
        assert(pos == s.len());
        assert(acc + ts =~= acc);
    } else {
        lemma_tracker_list_front(ts);
        let t = ts[0];
        let body = spec_tracker_body(t);
        let c = chunk_bytes(t.id, true, body);
        let rest = spec_tracker_list(ts.drop_first());
        let end = pos + c.len();
        lemma_split_tail(s, pos, c, rest);
        lemma_chunk_read(s, 0, pos, t.id, true, body);
        assert(body.subrange(0, body.len() as int) =~= body);
        lemma_tracker_fields(body, 0, t, 0);
        assert(keep_fields(t, 0) == empty_tracker(t.id));
        assert(spec_tracker(t.id, body) == Ok::<Tracker, PsnError>(t));
        lemma_trackers(s, end, acc.push(t), ts.drop_first());
        assert(acc.push(t) + ts.drop_first() =~= acc + ts);
        assert(spec_trackers(s, pos, acc) == spec_trackers(s, end, acc.push(t)));
    }
}

proof fn lemma_data_step_header(body: Seq<u8>, pos: int, acc: DataModel, h: DataHeader)
    requires
        0 <= pos < body.len(),
        spec_chunk_at(body, 0, pos) matches Ok(ch) && ch.id == 0,
        spec_data_header(spec_chunk_data(body, pos)) == Ok::<DataHeader, PsnError>(h),
    ensures
        spec_data_from(body, pos, acc) == spec_data_from(
            body,
            spec_chunk_end(body, pos),
            DataModel { header: Some(h), trackers: acc.trackers },
        ),
{
}

proof fn lemma_data_step_list(body: Seq<u8>, pos: int, acc: DataModel, ts: Seq<Tracker>)
    requires
        0 <= pos < body.len(),
        spec_chunk_at(body, 0, pos) matches Ok(ch) && ch.id == 1,
        spec_trackers(spec_chunk_data(body, pos), 0, acc.trackers) == Ok::<
            Seq<Tracker>,
            PsnError,
        >(ts),
    ensures
        spec_data_from(body, pos, acc) == spec_data_from(
            body,
            spec_chunk_end(body, pos),
            DataModel { header: acc.header, trackers: ts },
        ),
{
}

/// Two chunks written one after the other read back as those chunks.
proof fn lemma_two_chunks(
    body: Seq<u8>,
    id0: u16,
    sub0: bool,
    d0: Seq<u8>,
    id1: u16,
    sub1: bool,
    d1: Seq<u8>,
)
    requires
        body.subrange(0, body.len() as int) == chunk_bytes(id0, sub0, d0) + chunk_bytes(id1, sub1, d1),
        body.len() <= 0x7FFF,
    ensures
        spec_chunk_at(body, 0, 0) == Ok::<ChunkHeader, PsnError>(
            ChunkHeader { id: id0, data_len: d0.len() as u16, has_subchunks: sub0 },
        ),
        spec_chunk_data(body, 0) == d0,
        spec_chunk_end(body, 0) == chunk_bytes(id0, sub0, d0).len(),
        spec_chunk_at(body, 0, chunk_bytes(id0, sub0, d0).len() as int) == Ok::<
            ChunkHeader,
            PsnError,
        >(ChunkHeader { id: id1, data_len: d1.len() as u16, has_subchunks: sub1 }),
        spec_chunk_data(body, chunk_bytes(id0, sub0, d0).len() as int) == d1,
        spec_chunk_end(body, chunk_bytes(id0, sub0, d0).len() as int) == body.len(),
{
    let c0 = chunk_bytes(id0, sub0, d0);
    let c1 = chunk_bytes(id1, sub1, d1);
    lemma_split_tail(body, 0, c0, c1);
    lemma_chunk_read(body, 0, 0, id0, sub0, d0);
    lemma_chunk_read(body, 0, c0.len() as int, id1, sub1, d1);
}

/// Decoding a data body made of a header chunk and a tracker-list chunk.
proof fn lemma_data_body_parts(body: Seq<u8>, hb: Seq<u8>, list: Seq<u8>, h: DataHeader, ts: Seq<Tracker>)
    requires
        body.subrange(0, body.len() as int) == chunk_bytes(0, false, hb) + chunk_bytes(1, true, list),
        body.len() <= 0x7FFF,
        spec_data_header(hb) == Ok::<DataHeader, PsnError>(h),
        spec_trackers(list, 0, Seq::empty()) == Ok::<Seq<Tracker>, PsnError>(ts),
    ensures
        spec_decode_data(body) == Ok::<DataModel, PsnError>(DataModel { header: Some(h), trackers: ts }),
{
    lemma_two_chunks(body, 0, false, hb, 1, true, list);
    let e0 = chunk_bytes(0, false, hb).len() as int;
    let acc0 = DataModel { header: None, trackers: Seq::empty() };
    let acc1 = DataModel { header: Some(h), trackers: Seq::empty() };
    let acc2 = DataModel { header: Some(h), trackers: ts };
    lemma_data_step_header(body, 0, acc0, h);
    lemma_data_step_list(body, e0, acc1, ts);
    assert(spec_data_from(body, body.len() as int, acc2) == Ok::<DataModel, PsnError>(acc2));
}

/// Decoding the body of an encoded data packet gives its header and trackers.
proof fn lemma_data_body(h: DataHeader, ts: Seq<Tracker>)
    requires
        (chunk_bytes(0, false, spec_header_bytes(h)) + chunk_bytes(1, true, spec_tracker_list(ts))).len()
            <= 0x7FFF,
    ensures
        spec_decode_data(
            chunk_bytes(0, false, spec_header_bytes(h)) + chunk_bytes(1, true, spec_tracker_list(ts)),
        ) == Ok::<DataModel, PsnError>(DataModel { header: Some(h), trackers: ts }),
{
    let hb = spec_header_bytes(h);
    let list = spec_tracker_list(ts);
    lemma_header_read(h);
    assert(list.subrange(0, list.len() as int) =~= list);
    lemma_trackers(list, 0, Seq::empty(), ts);
    assert(Seq::<Tracker>::empty() + ts =~= ts);
    let body = chunk_bytes(0, false, hb) + chunk_bytes(1, true, list);
    assert(body.subrange(0, body.len() as int) =~= body);
    lemma_data_body_parts(body, hb, list, h, ts);
}

/// Round trip for data packets: decoding what `DataPacket::encode` writes
/// gives the packet back, its header filled in with the default header when
/// it had none, as long as the root chunk's data fits the 15-bit length. The
/// body decoder gives the same on the bytes after the root chunk header.
pub proof fn lemma_decode_encode_data(p: DataModel)
    requires
        spec_encode_data(p).len() <= 0x7FFF + 4,
    ensures
        spec_decode_packet(spec_encode_data(p)) == Ok::<PacketModel, PsnError>(
            PacketModel::Data(
                DataModel { header: Some(header_or_default(p.header)), trackers: p.trackers },
            ),
        ),
        spec_decode_data(spec_encode_data(p).subrange(4, spec_encode_data(p).len() as int)) == Ok::<
            DataModel,
            PsnError,
        >(DataModel { header: Some(header_or_default(p.header)), trackers: p.trackers }),
{
    let h = header_or_default(p.header);
    let body = chunk_bytes(0, false, spec_header_bytes(h)) + chunk_bytes(
        1,
        true,
        spec_tracker_list(p.trackers),
    );
    let buf = spec_encode_data(p);
    assert(buf.subrange(0, buf.len() as int) =~= buf);
    lemma_chunk_read(buf, 0, 0, 0x6755, true, body);
    lemma_data_body(h, p.trackers);
    assert(buf.subrange(4, buf.len() as int) =~= body);
}

/// The name chunks of a tracker decode to its name.
proof fn lemma_info_tracker_body(s: Seq<u8>, t: TrackerInfoModel)
    requires
        s.subrange(0, s.len() as int) == spec_info_tracker_body(t),
        s.len() <= 0x7FFF,
    ensures
        spec_tracker_name(s, 0, None) == Ok::<Option<Seq<char>>, PsnError>(t.name),
{
    match t.name {
        Some(n) => {
            let c = chunk_bytes(0, false, encode_utf8(n));
            assert(spec_info_tracker_body(t) == c);
            assert(s.subrange(0, s.len() as int).len() == s.len());
            assert(s.len() == c.len());
            lemma_chunk_read(s, 0, 0, 0, false, encode_utf8(n));
            lemma_utf8_read(n);
            assert(spec_tracker_name(s, s.len() as int, Some(n)) == Ok::<
                Option<Seq<char>>,
                PsnError,
            >(Some(n)));
        },
        None => {
            assert(spec_info_tracker_body(t) =~= Seq::<u8>::empty());
            assert(s.subrange(0, s.len() as int).len() == s.len());
            assert(s.len() == 0);
        },
    }
}

/// The chunks of a tracker-name list, split after the first tracker.
proof fn lemma_info_list_front(ts: Seq<TrackerInfoModel>)
    requires
        ts.len() > 0,
    ensures
        spec_info_list(ts) == chunk_bytes(ts[0].id, true, spec_info_tracker_body(ts[0]))
            + spec_info_list(ts.drop_first()),
    decreases ts.len(),
{
    if ts.len() == 1 {
        assert(ts.drop_last() =~= Seq::<TrackerInfoModel>::empty());
        assert(ts.drop_first() =~= Seq::<TrackerInfoModel>::empty());
        assert(spec_info_list(ts) =~= chunk_bytes(ts[0].id, true, spec_info_tracker_body(ts[0]))
            + spec_info_list(ts.drop_first()));
    } else {
        lemma_info_list_front(ts.drop_last());
        assert(ts.drop_last().drop_first() =~= ts.drop_first().drop_last());
        assert(ts.drop_first().last() == ts.last());
        assert(ts.drop_last()[0] == ts[0]);
        assert(spec_info_list(ts) =~= chunk_bytes(ts[0].id, true, spec_info_tracker_body(ts[0]))
            + spec_info_list(ts.drop_first()));
    }
}

/// Decoding the chunks of a tracker-name list gives the entries back.
proof fn lemma_tracker_infos(
    s: Seq<u8>,
    pos: int,
    acc: Seq<TrackerInfoModel>,
    ts: Seq<TrackerInfoModel>,
)
    requires
        0 <= pos <= s.len(),
        s.len() <= 0x7FFF,
        s.subrange(pos, s.len() as int) == spec_info_list(ts),
    ensures
        spec_tracker_infos(s, pos, acc) == Ok::<Seq<TrackerInfoModel>, PsnError>(acc + ts),
    decreases ts.len(),
{
    if ts.len() == 0 {
        assert(spec_info_list(ts).len() == 0);
        assert(pos == s.len());
        assert(acc + ts =~= acc);
    } else {
        lemma_info_list_front(ts);
        let t = ts[0];
        let body = spec_info_tracker_body(t);
        let c = chunk_bytes(t.id, true, body);
        let rest = spec_info_list(ts.drop_first());
        let end = pos + c.len();
        lemma_split_tail(s, pos, c, rest);
        lemma_chunk_read(s, 0, pos, t.id, true, body);
        let d = spec_chunk_data(s, pos);
        assert(d.subrange(0, d.len() as int) =~= d);
        lemma_info_tracker_body(d, t);
        assert(TrackerInfoModel { id: t.id, name: t.name } == t);
        lemma_tracker_infos(s, end, acc.push(t), ts.drop_first());
        assert(acc.push(t) + ts.drop_first() =~= acc + ts);
        assert(spec_tracker_infos(s, pos, acc) == spec_tracker_infos(s, end, acc.push(t)));
    }
}

proof fn lemma_info_step_header(body: Seq<u8>, pos: int, acc: InfoModel, h: InfoHeader)
    requires
        0 <= pos < body.len(),
        spec_chunk_at(body, 0, pos) matches Ok(ch) && ch.id == 0,
        spec_info_header(spec_chunk_data(body, pos)) == Ok::<InfoHeader, PsnError>(h),
    ensures
        spec_info_from(body, pos, acc) == spec_info_from(
            body,
            spec_chunk_end(body, pos),
            InfoModel { header: Some(h), ..acc },
        ),
{
}

proof fn lemma_info_step_name(body: Seq<u8>, pos: int, acc: InfoModel, n: Seq<char>)
    requires
        0 <= pos < body.len(),
        spec_chunk_at(body, 0, pos) matches Ok(ch) && ch.id == 1,
        spec_utf8_string(spec_chunk_data(body, pos)) == Ok::<Seq<char>, PsnError>(n),
    ensures
        spec_info_from(body, pos, acc) == spec_info_from(
            body,
            spec_chunk_end(body, pos),
            InfoModel { system_name: Some(n), ..acc },
        ),
{
}

proof fn lemma_info_step_list(
    body: Seq<u8>,
    pos: int,
    acc: InfoModel,
    ts: Seq<TrackerInfoModel>,
)
    requires
        0 <= pos < body.len(),
        spec_chunk_at(body, 0, pos) matches Ok(ch) && ch.id == 2,
        spec_tracker_infos(spec_chunk_data(body, pos), 0, acc.trackers) == Ok::<
            Seq<TrackerInfoModel>,
            PsnError,
        >(ts),
    ensures
        spec_info_from(body, pos, acc) == spec_info_from(
            body,
            spec_chunk_end(body, pos),
            InfoModel { trackers: ts, ..acc },
        ),
{
}

/// Decoding an info body made of the optional header and name chunks and the
/// tracker-list chunk.
proof fn lemma_info_body_parts(body: Seq<u8>, p: InfoModel)
    requires
        body.subrange(0, body.len() as int) == spec_info_header_chunk(p.header)
            + spec_system_name_chunk(p.system_name) + chunk_bytes(2, true, spec_info_list(p.trackers)),
        body.len() <= 0x7FFF,
        spec_tracker_infos(spec_info_list(p.trackers), 0, Seq::empty()) == Ok::<
            Seq<TrackerInfoModel>,
            PsnError,
        >(p.trackers),
    ensures
        spec_decode_info(body) == Ok::<InfoModel, PsnError>(p),
{
    let oh = spec_info_header_chunk(p.header);
    let on = spec_system_name_chunk(p.system_name);
    let list = spec_info_list(p.trackers);
    let cl = chunk_bytes(2, true, list);
    assert(oh + on + cl =~= oh + (on + cl));
    lemma_split_tail(body, 0, oh, on + cl);
    let p1 = oh.len() as int;
    lemma_split_tail(body, p1, on, cl);
    let p2 = p1 + on.len();
    let acc0 = InfoModel { header: None, system_name: None, trackers: Seq::empty() };
    let acc1 = InfoModel { header: p.header, system_name: None, trackers: Seq::empty() };
    let acc2 = InfoModel { header: p.header, system_name: p.system_name, trackers: Seq::empty() };
    match p.header {
        Some(ih) => {
            let hb = spec_header_bytes(info_as_data_header(ih));
            lemma_chunk_read(body, 0, 0, 0, false, hb);
            lemma_header_read(info_as_data_header(ih));
            lemma_info_step_header(body, 0, acc0, ih);
        },
        None => {
            assert(acc1 == acc0);
        },
    }
    assert(spec_info_from(body, 0, acc0) == spec_info_from(body, p1, acc1));
    match p.system_name {
        Some(n) => {
            lemma_chunk_read(body, 0, p1, 1, false, encode_utf8(n));
            lemma_utf8_read(n);
            lemma_info_step_name(body, p1, acc1, n);
        },
        None => {
            assert(acc2 == acc1);
        },
    }
    assert(spec_info_from(body, p1, acc1) == spec_info_from(body, p2, acc2));
    assert(body.subrange(p2, body.len() as int) == cl);
    lemma_chunk_read(body, 0, p2, 2, true, list);
    lemma_info_step_list(body, p2, acc2, p.trackers);
    assert(InfoModel { trackers: p.trackers, ..acc2 } == p);
    assert(spec_info_from(body, body.len() as int, p) == Ok::<InfoModel, PsnError>(p));
}

/// Round trip for info packets: decoding what `InfoPacket::encode` writes
/// gives the packet back, as long as the root chunk's data fits the 15-bit
/// length. The body decoder gives the same on the bytes after the root chunk
/// header.
pub proof fn lemma_decode_encode_info(p: InfoModel)
    requires
        spec_encode_info(p).len() <= 0x7FFF + 4,
    ensures
        spec_decode_packet(spec_encode_info(p)) == Ok::<PacketModel, PsnError>(
            PacketModel::Info(p),
        ),
        spec_decode_info(spec_encode_info(p).subrange(4, spec_encode_info(p).len() as int)) == Ok::<
            InfoModel,
            PsnError,
        >(p),
{
    let body = spec_info_header_chunk(p.header) + spec_system_name_chunk(p.system_name)
        + chunk_bytes(2, true, spec_info_list(p.trackers));
    let buf = spec_encode_info(p);
    assert(buf.subrange(0, buf.len() as int) =~= buf);
    lemma_chunk_read(buf, 0, 0, 0x6756, true, body);
    let list = spec_info_list(p.trackers);
    assert(list.subrange(0, list.len() as int) =~= list);
    lemma_tracker_infos(list, 0, Seq::empty(), p.trackers);
    assert(Seq::<TrackerInfoModel>::empty() + p.trackers =~= p.trackers);
    assert(body.subrange(0, body.len() as int) =~= body);
    lemma_info_body_parts(body, p);
    assert(buf.subrange(4, buf.len() as int) =~= body);
}


// ---------------------------------------------------------------------------
// Reading a run of chunks
// ---------------------------------------------------------------------------

/// The bytes of a run of chunks, one after another, each written from its
/// header's id and sub-chunk flag and its data.
pub open spec fn chunks_bytes(cs: Seq<(ChunkHeader, Seq<u8>)>) -> Seq<u8>
    decreases cs.len(),
{
    if cs.len() == 0 {
        Seq::empty()
    } else {
        chunk_bytes(cs[0].0.id, cs[0].0.has_subchunks, cs[0].1) + chunks_bytes(cs.drop_first())
    }
}

/// Each chunk's header states the length of its data, which fits in 15 bits.
pub open spec fn chunks_complete(cs: Seq<(ChunkHeader, Seq<u8>)>) -> bool {
    forall|i: int|
        0 <= i < cs.len() ==> (#[trigger] cs[i]).1.len() <= 0x7FFF && cs[i].0.data_len
            == cs[i].1.len()
}

/// The chunks of a run, each handed out as it is.
pub open spec fn ok_chunks(cs: Seq<(ChunkHeader, Seq<u8>)>) -> Seq<ChunkItem> {
    cs.map_values(|c: (ChunkHeader, Seq<u8>)| Ok::<(ChunkHeader, Seq<u8>), PsnError>(c))
}

proof fn lemma_chunk_run_at(buf: Seq<u8>, base: int, pos: int, cs: Seq<(ChunkHeader, Seq<u8>)>)
    requires
        0 <= pos,
        chunks_complete(cs),
        pos + chunks_bytes(cs).len() <= buf.len(),
        buf.subrange(pos, pos + chunks_bytes(cs).len()) == chunks_bytes(cs),
    ensures
        spec_chunk_items(buf, base, pos, false) == ok_chunks(cs) + spec_chunk_items(
            buf,
            base,
            pos + chunks_bytes(cs).len(),
            false,
        ),
    decreases cs.len(),
{
    if cs.len() == 0 {
        assert(ok_chunks(cs) =~= Seq::<ChunkItem>::empty());
        assert(ok_chunks(cs) + spec_chunk_items(buf, base, pos, false) =~= spec_chunk_items(
            buf,
            base,
            pos,
            false,
        ));
    } else {
        let c = cs[0];
        let tail = cs.drop_first();
        let whole = chunks_bytes(cs);
        let first = chunk_bytes(c.0.id, c.0.has_subchunks, c.1);
        assert(whole == first + chunks_bytes(tail));
        lemma_window(buf, pos, whole, 0, first.len() as int);
        assert(whole.subrange(0, first.len() as int) =~= first);
        lemma_window(buf, pos, whole, first.len() as int, whole.len() as int);
        assert(whole.subrange(first.len() as int, whole.len() as int) =~= chunks_bytes(tail));
        lemma_chunk_read(buf, base, pos, c.0.id, c.0.has_subchunks, c.1);
        assert(ChunkHeader { id: c.0.id, data_len: c.1.len() as u16, has_subchunks: c.0.has_subchunks }
            == c.0);
        assert(chunks_complete(tail)) by {
            assert forall|i: int| 0 <= i < tail.len() implies (#[trigger] tail[i]).1.len() <= 0x7FFF
                && tail[i].0.data_len == tail[i].1.len() by {
                assert(tail[i] == cs[i + 1]);
            }
        }
        lemma_chunk_run_at(buf, base, pos + first.len(), tail);
        assert(ok_chunks(cs) =~= seq![Ok::<(ChunkHeader, Seq<u8>), PsnError>(c)] + ok_chunks(tail));
        assert(ok_chunks(cs) + spec_chunk_items(buf, base, pos + whole.len(), false) =~= seq![
            Ok::<(ChunkHeader, Seq<u8>), PsnError>(c),
        ] + (ok_chunks(tail) + spec_chunk_items(buf, base, pos + whole.len(), false)));
    }
}

/// A chunk reader over a buffer that opens with a run of complete chunks
/// hands out those chunks in order. After them it hands out nothing where
/// the buffer ends, an end-of-buffer error where fewer than four bytes are
/// left, and an overrun error where the next chunk's data runs past the end;
/// error offsets count from the reader's base.
pub proof fn lemma_chunk_reader_run(buf: Seq<u8>, base: int, cs: Seq<(ChunkHeader, Seq<u8>)>)
    requires
        chunks_complete(cs),
        chunks_bytes(cs).len() <= buf.len(),
        buf.subrange(0, chunks_bytes(cs).len() as int) == chunks_bytes(cs),
    ensures
        ({
            let n = chunks_bytes(cs).len() as int;
            let after = spec_chunk_items(buf, base, n, false);
            &&& spec_chunk_items(buf, base, 0, false) == ok_chunks(cs) + after
            &&& n == buf.len() ==> after == Seq::<ChunkItem>::empty()
            &&& 0 < buf.len() - n < 4 ==> after == seq![
                Err::<(ChunkHeader, Seq<u8>), PsnError>(
                    PsnError::UnexpectedEof {
                        offset: (base + n) as usize,
                        needed: (4 - (buf.len() - n)) as usize,
                    },
                ),
            ]
            &&& buf.len() - n >= 4 && n + 4 + spec_chunk_header(buf, n).data_len > buf.len()
                ==> after == seq![
                Err::<(ChunkHeader, Seq<u8>), PsnError>(
                    PsnError::ChunkOverrun {
                        offset: (base + n) as usize,
                        len: spec_chunk_header(buf, n).data_len as usize,
                        available: (buf.len() - (n + 4)) as usize,
                    },
                ),
            ]
        }),
{
    lemma_chunk_run_at(buf, base, 0, cs);
}

} // verus!
