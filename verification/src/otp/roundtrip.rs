//! What the OTP encoders write, the decoders read back.
use super::advertisement::{
    spec_advertisement, spec_decode_module, spec_decode_name, spec_decode_system,
    spec_module_entries, spec_name_entries, AdvertisementModel, ModuleIdent, PointNameModel,
};
use super::encode::{
    address_bytes, advertisement_layer, base_fields_bytes, boundary_at_or_below, ivec3_bytes,
    message_layer, module_bytes, module_entries_bytes, module_slot, modules_from,
    name_entries_bytes, name_entry_bytes, name_field_bytes, pdu_bytes, point_body, point_list,
    position_data, spec_encode_packet, transform_body, uvec3_bytes, vec3_or_zero, zeros,
};
use super::modules::{
    i32_at, spec_position, spec_read_ivec3, spec_reference_frame, spec_rotation, spec_vel_accel,
    Address, Position, UVec3, Vec3,
};
use super::pdu::{
    spec_pdu_at, spec_pdu_body, spec_pdu_end, spec_pdu_items, spec_pdu_present, spec_read_one, PduItem,
};
use super::read::{first_nul, spec_fixed_name};
use super::transform::{
    bare_point, spec_apply_module, spec_module_pdu, spec_point, spec_point_modules, spec_points,
    spec_transform, Point, TransformModel,
};
use super::{
    spec_base_fields, spec_decode_packet, spec_message, spec_packet_ident, LayerModel,
    MessageModel, OtpError, PacketModel,
};
use crate::bytes::{
    be16_at, be16_bytes, be32_at, be32_bytes, be64_at, be64_bytes, lemma_be16_read, lemma_be32_read,
    lemma_be64_read, lemma_split_tail, lemma_window,
};
use vstd::prelude::*;
use vstd::utf8::{
    decode_utf8, encode_utf8, encode_utf8_decode_utf8, encode_utf8_valid_utf8, is_char_boundary,
    is_char_boundary_start_end_of_seq, valid_utf8,
};

verus! {

// ---------------------------------------------------------------------------
// Conditions under which a packet survives the round trip
// ---------------------------------------------------------------------------

/// A name that a 32-octet field holds exactly: at most 32 UTF-8 octets, none
/// of them NUL.
pub open spec fn name_fits(n: Seq<char>) -> bool {
    &&& encode_utf8(n).len() <= 32
    &&& forall|i: int| 0 <= i < encode_utf8(n).len() ==> encode_utf8(n)[i] != 0
}

/// A point that a transform message of system `system` carries exactly: it
/// belongs to that system, and it has a velocity exactly when it has an
/// acceleration, and a rotation velocity exactly when it has a rotation
/// acceleration (the encoder writes them as pairs).
pub open spec fn point_fits(p: Point, system: u8) -> bool {
    &&& p.address.system == system
    &&& (p.velocity is Some <==> p.acceleration is Some)
    &&& (p.rotation_velocity is Some <==> p.rotation_acceleration is Some)
}

/// A message that the encoder writes so that decoding gives it back: its
/// points fit its system, its names fit their fields, and it is not an
/// advertisement of an unknown kind.
pub open spec fn message_fits(m: MessageModel) -> bool {
    match m {
        MessageModel::Transform(t) => forall|i: int|
            0 <= i < t.points.len() ==> point_fits(#[trigger] t.points[i], t.system),
        MessageModel::Advertisement(a) => match a {
            AdvertisementModel::Unknown(_) => false,
            AdvertisementModel::Name { is_response, names } => forall|i: int|
                0 <= i < names.len() ==> name_fits(#[trigger] names[i].name),
            _ => true,
        },
    }
}

/// A packet that the encoder writes and the decoder reads back exactly.
pub open spec fn packet_fits(p: PacketModel) -> bool {
    &&& p.layer.cid.len() == 16
    &&& name_fits(p.layer.component_name)
    &&& message_fits(p.message)
}

// ---------------------------------------------------------------------------
// Fields
// ---------------------------------------------------------------------------

proof fn lemma_pdu_read(s: Seq<u8>, pos: int, v: u16, b: Seq<u8>)
    requires
        0 <= pos,
        b.len() <= 0xFFFF,
        pos + pdu_bytes(v, b).len() <= s.len(),
        s.subrange(pos, pos + pdu_bytes(v, b).len()) == pdu_bytes(v, b),
    ensures
        spec_pdu_present(s, pos),
        spec_pdu_at(s, pos) == Ok::<u16, OtpError>(v),
        spec_pdu_body(s, pos) == b,
        spec_pdu_end(s, pos) == pos + 4 + b.len(),
{
    let c = pdu_bytes(v, b);
    lemma_window(s, pos, c, 0, 2);
    assert(c.subrange(0, 2) =~= be16_bytes(v));
    lemma_be16_read(s, pos, v);
    lemma_window(s, pos, c, 2, 4);
    assert(c.subrange(2, 4) =~= be16_bytes(b.len() as u16));
    lemma_be16_read(s, pos + 2, b.len() as u16);
    lemma_window(s, pos, c, 4, c.len() as int);
    assert(c.subrange(4, c.len() as int) =~= b);
}

proof fn lemma_i32_read(s: Seq<u8>, i: int, x: i32)
    requires
        0 <= i,
        i + 4 <= s.len(),
        s.subrange(i, i + 4) == be32_bytes(x as u32),
    ensures
        i32_at(s, i) == x,
{
    lemma_be32_read(s, i, x as u32);
    assert((x as u32) as i32 == x) by (bit_vector);
}

proof fn lemma_ivec3_read(s: Seq<u8>, start: int, v: Vec3)
    requires
        0 <= start,
        start + 12 <= s.len(),
        s.subrange(start, start + 12) == ivec3_bytes(v),
    ensures
        spec_read_ivec3(s, start) == Ok::<Vec3, OtpError>(v),
{
    let w = ivec3_bytes(v);
    lemma_window(s, start, w, 0, 4);
    assert(w.subrange(0, 4) =~= be32_bytes(v.x as u32));
    lemma_i32_read(s, start, v.x);
    lemma_window(s, start, w, 4, 8);
    assert(w.subrange(4, 8) =~= be32_bytes(v.y as u32));
    lemma_i32_read(s, start + 4, v.y);
    lemma_window(s, start, w, 8, 12);
    assert(w.subrange(8, 12) =~= be32_bytes(v.z as u32));
    lemma_i32_read(s, start + 8, v.z);
}

proof fn lemma_position_read(p: Position)
    ensures
        spec_position(position_data(p)) == Ok::<Position, OtpError>(p),
{
    let d = position_data(p);
    assert(d.subrange(1, 13) =~= ivec3_bytes(p.value));
    lemma_ivec3_read(d, 1, p.value);
    let o: u8 = if p.millimetres { 0x80u8 } else { 0u8 };
    assert(((o & 0x80u8) != 0) == (o == 0x80u8)) by (bit_vector)
        requires
            o == 0x80u8 || o == 0u8,
    ;
}

proof fn lemma_vel_accel_read(v: Vec3, a: Vec3)
    ensures
        spec_vel_accel(ivec3_bytes(v) + ivec3_bytes(a)) == Ok::<(Vec3, Vec3), OtpError>((v, a)),
{
    let d = ivec3_bytes(v) + ivec3_bytes(a);
    assert(d.subrange(0, 12) =~= ivec3_bytes(v));
    lemma_ivec3_read(d, 0, v);
    assert(d.subrange(12, 24) =~= ivec3_bytes(a));
    lemma_ivec3_read(d, 12, a);
}

proof fn lemma_rotation_read(v: UVec3)
    ensures
        spec_rotation(uvec3_bytes(v)) == Ok::<UVec3, OtpError>(v),
{
    let d = uvec3_bytes(v);
    assert(d.subrange(0, 4) =~= be32_bytes(v.x));
    lemma_be32_read(d, 0, v.x);
    assert(d.subrange(4, 8) =~= be32_bytes(v.y));
    lemma_be32_read(d, 4, v.y);
    assert(d.subrange(8, 12) =~= be32_bytes(v.z));
    lemma_be32_read(d, 8, v.z);
}

proof fn lemma_scale_read(v: Vec3)
    ensures
        spec_read_ivec3(ivec3_bytes(v), 0) == Ok::<Vec3, OtpError>(v),
{
    let d = ivec3_bytes(v);
    assert(d.subrange(0, 12) =~= d);
    lemma_ivec3_read(d, 0, v);
}

proof fn lemma_address_read(s: Seq<u8>, pos: int, a: Address)
    requires
        0 <= pos,
        pos + 7 <= s.len(),
        s.subrange(pos, pos + 7) == address_bytes(a),
    ensures
        s[pos] == a.system,
        be16_at(s, pos + 1) == a.group,
        be32_at(s, pos + 3) == a.point,
{
    let w = address_bytes(a);
    lemma_window(s, pos, w, 0, 1);
    assert(s[pos] == s.subrange(pos, pos + 1)[0]);
    lemma_window(s, pos, w, 1, 3);
    assert(w.subrange(1, 3) =~= be16_bytes(a.group));
    lemma_be16_read(s, pos + 1, a.group);
    lemma_window(s, pos, w, 3, 7);
    assert(w.subrange(3, 7) =~= be32_bytes(a.point));
    lemma_be32_read(s, pos + 3, a.point);
}

proof fn lemma_reference_frame_read(a: Address)
    ensures
        spec_reference_frame(address_bytes(a)) == Ok::<Address, OtpError>(a),
{
    let d = address_bytes(a);
    assert(d.subrange(0, 7) =~= d);
    lemma_address_read(d, 0, a);
}

// ---------------------------------------------------------------------------
// Modules and points
// ---------------------------------------------------------------------------

/// `p` with only the modules of slots before `k` kept.
pub open spec fn keep_modules(p: Point, k: int) -> Point {
    Point {
        address: p.address,
        priority: p.priority,
        timestamp_us: p.timestamp_us,
        position: if k > 0 { p.position } else { None },
        velocity: if k > 1 { p.velocity } else { None },
        acceleration: if k > 1 { p.acceleration } else { None },
        rotation: if k > 2 { p.rotation } else { None },
        rotation_velocity: if k > 3 { p.rotation_velocity } else { None },
        rotation_acceleration: if k > 3 { p.rotation_acceleration } else { None },
        scale: if k > 4 { p.scale } else { None },
        reference_frame: if k > 5 { p.reference_frame } else { None },
    }
}

/// Slot `k` of a point: either empty, or a module PDU whose body decodes to
/// the slot's value.
proof fn lemma_module_slot(p: Point, k: int) -> (r: (u16, Seq<u8>))
    requires
        0 <= k < 6,
        p.velocity is Some <==> p.acceleration is Some,
        p.rotation_velocity is Some <==> p.rotation_acceleration is Some,
    ensures
        module_slot(p, k).len() == 0 ==> keep_modules(p, k) == keep_modules(p, k + 1),
        module_slot(p, k).len() > 0 ==> {
            &&& module_slot(p, k) == module_bytes(r.0, r.1)
            &&& r.1.len() <= 24
            &&& spec_apply_module(keep_modules(p, k), r.0, r.1) == Ok::<Point, OtpError>(
                keep_modules(p, k + 1),
            )
        },
{
    reveal(module_slot);
    if k == 0 {
        if let Some(v) = p.position {
            lemma_position_read(v);
            return (1u16, position_data(v));
        }
    } else if k == 1 {
        if p.velocity is Some {
            let v = p.velocity.unwrap();
            let a = p.acceleration.unwrap();
            lemma_vel_accel_read(v, a);
            return (2u16, ivec3_bytes(v) + ivec3_bytes(a));
        }
    } else if k == 2 {
        if let Some(v) = p.rotation {
            lemma_rotation_read(v);
            return (3u16, uvec3_bytes(v));
        }
    } else if k == 3 {
        if p.rotation_velocity is Some {
            let v = p.rotation_velocity.unwrap();
            let a = p.rotation_acceleration.unwrap();
            lemma_vel_accel_read(v, a);
            return (4u16, ivec3_bytes(v) + ivec3_bytes(a));
        }
    } else if k == 4 {
        if let Some(v) = p.scale {
            lemma_scale_read(v);
            return (5u16, ivec3_bytes(v));
        }
    } else {
        if let Some(a) = p.reference_frame {
            lemma_reference_frame_read(a);
            return (6u16, address_bytes(a));
        }
    }
    (0u16, Seq::empty())
}

proof fn lemma_module_pdu_body(q: Point, number: u16, data: Seq<u8>)
    ensures
        spec_module_pdu(q, be16_bytes(number) + data) == spec_apply_module(q, number, data),
{
    let b = be16_bytes(number) + data;
    assert(b.subrange(0, 2) =~= be16_bytes(number));
    lemma_be16_read(b, 0, number);
    assert(b.subrange(2, b.len() as int) =~= data);
}

/// Decoding the module PDUs from slot `k` on completes the point.
proof fn lemma_point_modules(s: Seq<u8>, pos: int, p: Point, k: int)
    requires
        0 <= k <= 6,
        0 <= pos <= s.len(),
        s.len() <= 0xFFFF,
        s.subrange(pos, s.len() as int) == modules_from(p, k),
        p.velocity is Some <==> p.acceleration is Some,
        p.rotation_velocity is Some <==> p.rotation_acceleration is Some,
    ensures
        spec_point_modules(s, pos, keep_modules(p, k)) == Ok::<Point, OtpError>(p),
    decreases 6 - k,
{
    if k >= 6 {
        assert(modules_from(p, k).len() == 0);
        assert(keep_modules(p, k) == p);
    } else {
        let m = module_slot(p, k);
        let rest = modules_from(p, k + 1);
        assert(modules_from(p, k) == m + rest);
        lemma_split_tail(s, pos, m, rest);
        let (number, data) = lemma_module_slot(p, k);
        if m.len() == 0 {
            lemma_point_modules(s, pos, p, k + 1);
        } else {
            lemma_pdu_read(s, pos, 0, be16_bytes(number) + data);
            lemma_module_pdu_body(keep_modules(p, k), number, data);
            lemma_point_modules(s, pos + m.len(), p, k + 1);
        }
    }
}

/// Decoding a point PDU body gives the point back.
proof fn lemma_point_read(s: Seq<u8>, p: Point, system: u8)
    requires
        s.subrange(0, s.len() as int) == point_body(p),
        s.len() <= 0xFFFF,
        point_fits(p, system),
    ensures
        spec_point(system, s) == Ok::<Point, OtpError>(p),
{
    reveal(spec_point);
    let w = point_body(p);
    let head = seq![p.priority] + be16_bytes(p.address.group) + be32_bytes(p.address.point)
        + be64_bytes(p.timestamp_us) + seq![0u8] + be32_bytes(0);
    let mods = modules_from(p, 0);
    assert(w == head + mods);
    assert(head.len() == 20);
    lemma_split_tail(s, 0, head, mods);
    lemma_window(s, 0, head, 0, 1);
    assert(s[0] == s.subrange(0, 1)[0]);
    lemma_window(s, 0, head, 1, 3);
    assert(head.subrange(1, 3) =~= be16_bytes(p.address.group));
    lemma_be16_read(s, 1, p.address.group);
    lemma_window(s, 0, head, 3, 7);
    assert(head.subrange(3, 7) =~= be32_bytes(p.address.point));
    lemma_be32_read(s, 3, p.address.point);
    lemma_window(s, 0, head, 7, 15);
    assert(head.subrange(7, 15) =~= be64_bytes(p.timestamp_us));
    lemma_be64_read(s, 7, p.timestamp_us);
    let ms = s.subrange(20, s.len() as int);
    assert(ms.subrange(0, ms.len() as int) =~= ms);
    lemma_point_modules(ms, 0, p, 0);
    assert(bare_point(
        Address { system, group: be16_at(s, 1), point: be32_at(s, 3) },
        s[0],
        be64_at(s, 7),
    ) == keep_modules(p, 0));
}

proof fn lemma_point_list_front(ps: Seq<Point>)
    requires
        ps.len() > 0,
    ensures
        point_list(ps) == pdu_bytes(1, point_body(ps[0])) + point_list(ps.drop_first()),
    decreases ps.len(),
{
    if ps.len() == 1 {
        assert(ps.drop_last() =~= Seq::<Point>::empty());
        assert(ps.drop_first() =~= Seq::<Point>::empty());
        assert(point_list(ps) =~= pdu_bytes(1, point_body(ps[0])) + point_list(ps.drop_first()));
    } else {
        lemma_point_list_front(ps.drop_last());
        assert(ps.drop_last().drop_first() =~= ps.drop_first().drop_last());
        assert(ps.drop_first().last() == ps.last());
        assert(ps.drop_last()[0] == ps[0]);
        assert(point_list(ps) =~= pdu_bytes(1, point_body(ps[0])) + point_list(ps.drop_first()));
    }
}

proof fn lemma_points_step(s: Seq<u8>, pos: int, system: u8, acc: Seq<Point>, p: Point)
    requires
        0 <= pos,
        spec_pdu_present(s, pos),
        spec_pdu_at(s, pos) == Ok::<u16, OtpError>(1),
        spec_point(system, spec_pdu_body(s, pos)) == Ok::<Point, OtpError>(p),
    ensures
        spec_points(s, pos, system, acc) == spec_points(
            s,
            spec_pdu_end(s, pos),
            system,
            acc.push(p),
        ),
{
}

/// Decoding the point PDUs of a list gives the points back.
proof fn lemma_points(s: Seq<u8>, pos: int, system: u8, acc: Seq<Point>, ps: Seq<Point>)
    requires
        0 <= pos <= s.len(),
        s.len() <= 0xFFFF,
        s.subrange(pos, s.len() as int) == point_list(ps),
        forall|i: int| 0 <= i < ps.len() ==> point_fits(#[trigger] ps[i], system),
    ensures
        spec_points(s, pos, system, acc) == Ok::<Seq<Point>, OtpError>(acc + ps),
    decreases ps.len(),
{
    if ps.len() == 0 {
        assert(point_list(ps).len() == 0);
        assert(pos == s.len());
        assert(acc + ps =~= acc);
    } else {
        lemma_point_list_front(ps);
        let p = ps[0];
        assert(point_fits(p, system));
        let body = point_body(p);
        let c = pdu_bytes(1, body);
        let rest = point_list(ps.drop_first());
        lemma_split_tail(s, pos, c, rest);
        lemma_pdu_read(s, pos, 1, body);
        let d = spec_pdu_body(s, pos);
        assert(d.subrange(0, d.len() as int) =~= d);
        lemma_point_read(d, p, system);
        assert forall|i: int| 0 <= i < ps.drop_first().len() implies point_fits(
            #[trigger] ps.drop_first()[i],
            system,
        ) by {
            assert(ps.drop_first()[i] == ps[i + 1]);
        }
        lemma_points(s, pos + c.len(), system, acc.push(p), ps.drop_first());
        lemma_points_step(s, pos, system, acc, p);
        assert(acc.push(p) + ps.drop_first() =~= acc + ps);
    }
}

/// Decoding a transform-layer body gives the transform message back.
proof fn lemma_transform_read(s: Seq<u8>, t: TransformModel)
    requires
        s.subrange(0, s.len() as int) == transform_body(t),
        s.len() <= 0xFFFF,
        forall|i: int| 0 <= i < t.points.len() ==> point_fits(#[trigger] t.points[i], t.system),
    ensures
        spec_transform(s) == Ok::<TransformModel, OtpError>(t),
{
    let o: u8 = if t.full_point_set { 0x80u8 } else { 0u8 };
    let head = seq![t.system] + be64_bytes(t.timestamp_us) + seq![o] + be32_bytes(0);
    let list = point_list(t.points);
    assert(transform_body(t) == head + list);
    assert(head.len() == 14);
    lemma_split_tail(s, 0, head, list);
    lemma_window(s, 0, head, 0, 1);
    assert(s[0] == s.subrange(0, 1)[0]);
    lemma_window(s, 0, head, 1, 9);
    assert(head.subrange(1, 9) =~= be64_bytes(t.timestamp_us));
    lemma_be64_read(s, 1, t.timestamp_us);
    lemma_window(s, 0, head, 9, 10);
    assert(s[9] == s.subrange(9, 10)[0]);
    assert(((o & 0x80u8) != 0) == (o == 0x80u8)) by (bit_vector)
        requires
            o == 0x80u8 || o == 0u8,
    ;
    let ps = s.subrange(14, s.len() as int);
    assert(ps.subrange(0, ps.len() as int) =~= ps);
    lemma_points(ps, 0, t.system, Seq::empty(), t.points);
    assert(Seq::<Point>::empty() + t.points =~= t.points);
}

// ---------------------------------------------------------------------------
// Names
// ---------------------------------------------------------------------------

proof fn lemma_first_nul(s: Seq<u8>, i: int, l: int)
    requires
        0 <= i <= l <= s.len(),
        forall|k: int| i <= k < l ==> s[k] != 0,
        l < s.len() ==> s[l] == 0,
    ensures
        first_nul(s, i) == l,
    decreases l - i,
{
    if i < l {
        lemma_first_nul(s, i + 1, l);
    }
}

/// A name that fits is written as its bytes and NUL padding, and reads back
/// as itself.
proof fn lemma_name_field(n: Seq<char>)
    requires
        name_fits(n),
    ensures
        name_field_bytes(encode_utf8(n)) == encode_utf8(n) + zeros(32 - encode_utf8(n).len()),
        name_field_bytes(encode_utf8(n)).len() == 32,
        spec_fixed_name(name_field_bytes(encode_utf8(n))) == n,
{
    let b = encode_utf8(n);
    let l = b.len() as int;
    encode_utf8_valid_utf8(n);
    encode_utf8_decode_utf8(n);
    is_char_boundary_start_end_of_seq(b);
    assert(boundary_at_or_below(b, l) == l);
    assert(b.subrange(0, l) =~= b);
    let s = name_field_bytes(encode_utf8(n));
    assert(s =~= b + zeros(32 - l));
    assert forall|k: int| 0 <= k < l implies s[k] != 0 by {
        assert(s[k] == b[k]);
    }
    if l < 32 {
        assert(s[l] == zeros(32 - l)[0]);
    }
    lemma_first_nul(s, 0, l);
    assert(s.subrange(0, l) =~= b);
}

/// The name entries of a name advertisement, split after the first.
proof fn lemma_name_entries_front(ns: Seq<PointNameModel>)
    requires
        ns.len() > 0,
    ensures
        name_entries_bytes(ns) == name_entry_bytes(ns[0]) + name_entries_bytes(ns.drop_first()),
    decreases ns.len(),
{
    if ns.len() == 1 {
        assert(ns.drop_last() =~= Seq::<PointNameModel>::empty());
        assert(ns.drop_first() =~= Seq::<PointNameModel>::empty());
        assert(name_entries_bytes(ns) =~= name_entry_bytes(ns[0]) + name_entries_bytes(
            ns.drop_first(),
        ));
    } else {
        lemma_name_entries_front(ns.drop_last());
        assert(ns.drop_last().drop_first() =~= ns.drop_first().drop_last());
        assert(ns.drop_first().last() == ns.last());
        assert(ns.drop_last()[0] == ns[0]);
        assert(name_entries_bytes(ns) =~= name_entry_bytes(ns[0]) + name_entries_bytes(
            ns.drop_first(),
        ));
    }
}

/// Decoding the entries of a name advertisement gives them back.
proof fn lemma_name_entries(s: Seq<u8>, pos: int, ns: Seq<PointNameModel>)
    requires
        0 <= pos <= s.len(),
        s.subrange(pos, s.len() as int) == name_entries_bytes(ns),
        forall|i: int| 0 <= i < ns.len() ==> name_fits(#[trigger] ns[i].name),
    ensures
        spec_name_entries(s, pos) == ns,
    decreases ns.len(),
{
    if ns.len() == 0 {
        assert(name_entries_bytes(ns).len() == 0);
        assert(ns =~= Seq::<PointNameModel>::empty());
    } else {
        lemma_name_entries_front(ns);
        let n0 = ns[0];
        assert(name_fits(n0.name));
        let e = name_entry_bytes(n0);
        let rest = name_entries_bytes(ns.drop_first());
        lemma_name_field(n0.name);
        assert(e.len() == 39);
        lemma_split_tail(s, pos, e, rest);
        lemma_window(s, pos, e, 0, 7);
        assert(e.subrange(0, 7) =~= address_bytes(n0.address));
        lemma_address_read(s, pos, n0.address);
        lemma_window(s, pos, e, 7, 39);
        assert(e.subrange(7, 39) =~= name_field_bytes(encode_utf8(n0.name)));
        assert forall|i: int| 0 <= i < ns.drop_first().len() implies name_fits(
            #[trigger] ns.drop_first()[i].name,
        ) by {
            assert(ns.drop_first()[i] == ns[i + 1]);
        }
        lemma_name_entries(s, pos + 39, ns.drop_first());
        assert(seq![n0] + ns.drop_first() =~= ns);
    }
}

// ---------------------------------------------------------------------------
// Advertisements
// ---------------------------------------------------------------------------

proof fn lemma_module_entries_front(ms: Seq<ModuleIdent>)
    requires
        ms.len() > 0,
    ensures
        module_entries_bytes(ms) == be16_bytes(ms[0].manufacturer) + be16_bytes(ms[0].module)
            + module_entries_bytes(ms.drop_first()),
    decreases ms.len(),
{
    if ms.len() == 1 {
        assert(ms.drop_last() =~= Seq::<ModuleIdent>::empty());
        assert(ms.drop_first() =~= Seq::<ModuleIdent>::empty());
        assert(module_entries_bytes(ms) =~= be16_bytes(ms[0].manufacturer) + be16_bytes(
            ms[0].module,
        ) + module_entries_bytes(ms.drop_first()));
    } else {
        lemma_module_entries_front(ms.drop_last());
        assert(ms.drop_last().drop_first() =~= ms.drop_first().drop_last());
        assert(ms.drop_first().last() == ms.last());
        assert(ms.drop_last()[0] == ms[0]);
        assert(module_entries_bytes(ms) =~= be16_bytes(ms[0].manufacturer) + be16_bytes(
            ms[0].module,
        ) + module_entries_bytes(ms.drop_first()));
    }
}

proof fn lemma_module_entries(s: Seq<u8>, pos: int, ms: Seq<ModuleIdent>)
    requires
        0 <= pos <= s.len(),
        s.subrange(pos, s.len() as int) == module_entries_bytes(ms),
    ensures
        spec_module_entries(s, pos) == ms,
    decreases ms.len(),
{
    if ms.len() == 0 {
        assert(module_entries_bytes(ms).len() == 0);
        assert(ms =~= Seq::<ModuleIdent>::empty());
    } else {
        lemma_module_entries_front(ms);
        let m = ms[0];
        let e = be16_bytes(m.manufacturer) + be16_bytes(m.module);
        let rest = module_entries_bytes(ms.drop_first());
        lemma_split_tail(s, pos, e, rest);
        lemma_window(s, pos, e, 0, 2);
        assert(e.subrange(0, 2) =~= be16_bytes(m.manufacturer));
        lemma_be16_read(s, pos, m.manufacturer);
        lemma_window(s, pos, e, 2, 4);
        assert(e.subrange(2, 4) =~= be16_bytes(m.module));
        lemma_be16_read(s, pos + 2, m.module);
        lemma_module_entries(s, pos + 4, ms.drop_first());
        assert(seq![m] + ms.drop_first() =~= ms);
    }
}

proof fn lemma_response_flag(r: bool)
    ensures
        ((if r { 0x80u8 } else { 0u8 }) & 0x80u8 != 0) == r,
{
    let o: u8 = if r { 0x80u8 } else { 0u8 };
    assert(((o & 0x80u8) != 0) == (o == 0x80u8)) by (bit_vector)
        requires
            o == 0x80u8 || o == 0u8,
    ;
}

proof fn lemma_layer_inner(x: Seq<u8>, y: Seq<u8>)
    requires
        be32_bytes(0) + pdu_bytes(1, x) == be32_bytes(0) + pdu_bytes(1, y),
    ensures
        x == y,
{
    let w = be32_bytes(0) + pdu_bytes(1, x);
    assert(w.len() == 8 + x.len());
    assert(x.len() == y.len());
    assert(w.subrange(8, w.len() as int) =~= x);
    assert((be32_bytes(0) + pdu_bytes(1, y)).subrange(8, w.len() as int) =~= y);
}

/// Decoding the inner list body of an advertisement gives it back.
proof fn lemma_advertisement_list(s: Seq<u8>, kind: u16, a: AdvertisementModel, inner: Seq<u8>)
    requires
        s.subrange(0, s.len() as int) == inner,
        message_fits(MessageModel::Advertisement(a)),
        advertisement_layer(a) == Some((kind, be32_bytes(0) + pdu_bytes(1, inner))),
    ensures
        kind == 1 ==> spec_decode_module(s) == Ok::<AdvertisementModel, OtpError>(a),
        kind == 2 ==> spec_decode_name(s) == Ok::<AdvertisementModel, OtpError>(a),
        kind == 3 ==> spec_decode_system(s) == Ok::<AdvertisementModel, OtpError>(a),
        1 <= kind <= 3,
{
    match a {
        AdvertisementModel::Module(ms) => {
            lemma_layer_inner(inner, be32_bytes(0) + module_entries_bytes(ms));
            lemma_split_tail(s, 0, be32_bytes(0), module_entries_bytes(ms));
            lemma_module_entries(s, 4, ms);
        },
        AdvertisementModel::Name { is_response, names } => {
            let o = if is_response { 0x80u8 } else { 0u8 };
            let head = seq![o] + be32_bytes(0);
            lemma_layer_inner(inner, head + name_entries_bytes(names));
            lemma_split_tail(s, 0, head, name_entries_bytes(names));
            assert(s[0] == head[0]);
            lemma_response_flag(is_response);
            lemma_name_entries(s, 5, names);
        },
        AdvertisementModel::System { is_response, systems } => {
            let o = if is_response { 0x80u8 } else { 0u8 };
            let head = seq![o] + be32_bytes(0);
            lemma_layer_inner(inner, head + systems);
            lemma_split_tail(s, 0, head, systems);
            assert(s[0] == head[0]);
            lemma_response_flag(is_response);
        },
        AdvertisementModel::Unknown(_) => {},
    }
}

/// The inner list body of a known advertisement.
pub open spec fn advertisement_inner(a: AdvertisementModel) -> Seq<u8> {
    match a {
        AdvertisementModel::Module(ms) => be32_bytes(0) + module_entries_bytes(ms),
        AdvertisementModel::Name { is_response, names } => seq![
            if is_response { 0x80u8 } else { 0u8 },
        ] + be32_bytes(0) + name_entries_bytes(names),
        AdvertisementModel::System { is_response, systems } => seq![
            if is_response { 0x80u8 } else { 0u8 },
        ] + be32_bytes(0) + systems,
        AdvertisementModel::Unknown(_) => Seq::empty(),
    }
}

/// Decoding an advertisement layer's body gives the advertisement back.
proof fn lemma_advertisement(s: Seq<u8>, a: AdvertisementModel)
    requires
        message_fits(MessageModel::Advertisement(a)),
        s.subrange(0, s.len() as int) == advertisement_layer(a).unwrap().1,
        s.len() <= 0xFFFF + 8,
    ensures
        spec_advertisement(advertisement_layer(a).unwrap().0, s) == Ok::<
            AdvertisementModel,
            OtpError,
        >(a),
{
    let (kind, body) = advertisement_layer(a).unwrap();
    let inner = advertisement_inner(a);
    assert(body == be32_bytes(0) + pdu_bytes(1, inner));
    lemma_split_tail(s, 0, be32_bytes(0), pdu_bytes(1, inner));
    let rest = s.subrange(4, s.len() as int);
    assert(rest.subrange(0, rest.len() as int) =~= rest);
    lemma_pdu_read(rest, 0, 1, inner);
    let ib = spec_pdu_body(rest, 0);
    assert(ib.subrange(0, ib.len() as int) =~= ib);
    lemma_advertisement_list(ib, kind, a, inner);
}

/// Decoding the base-layer fields gives the layer back.
proof fn lemma_base_fields(s: Seq<u8>, l: LayerModel)
    requires
        s.len() >= 63,
        s.subrange(0, 63) == base_fields_bytes(l),
        l.cid.len() == 16,
        name_fits(l.component_name),
    ensures
        spec_base_fields(s) == Ok::<LayerModel, OtpError>(l),
{
    reveal(spec_base_fields);
    let w = base_fields_bytes(l);
    lemma_name_field(l.component_name);
    assert(w.len() == 63);
    lemma_window(s, 0, w, 2, 18);
    assert(w.subrange(2, 18) =~= l.cid);
    lemma_window(s, 0, w, 18, 22);
    assert(w.subrange(18, 22) =~= be32_bytes(l.folio));
    lemma_be32_read(s, 18, l.folio);
    lemma_window(s, 0, w, 22, 24);
    assert(w.subrange(22, 24) =~= be16_bytes(l.page));
    lemma_be16_read(s, 22, l.page);
    lemma_window(s, 0, w, 24, 26);
    assert(w.subrange(24, 26) =~= be16_bytes(l.last_page));
    lemma_be16_read(s, 24, l.last_page);
    lemma_window(s, 0, w, 31, 63);
    assert(w.subrange(31, 63) =~= name_field_bytes(encode_utf8(l.component_name)));
}

/// Decoding a message sub-layer gives the message back.
proof fn lemma_message(sub: Seq<u8>, m: MessageModel, total: int)
    requires
        sub.subrange(0, sub.len() as int) == message_layer(m).1,
        sub.len() <= 0xFFFF,
        message_fits(m),
    ensures
        spec_message(message_layer(m).0, sub, total) == Ok::<MessageModel, OtpError>(m),
{
    reveal(spec_message);
    match m {
        MessageModel::Transform(t) => {
            let tb = transform_body(t);
            assert(message_layer(m).1 == pdu_bytes(1, tb));
            assert(sub.len() == pdu_bytes(1, tb).len());
            lemma_pdu_read(sub, 0, 1, tb);
            let b = spec_pdu_body(sub, 0);
            assert(b.subrange(0, b.len() as int) =~= b);
            lemma_transform_read(b, t);
        },
        MessageModel::Advertisement(a) => {
            assert(advertisement_layer(a) is Some);
            let (kind, body) = advertisement_layer(a).unwrap();
            assert(message_layer(m).1 == pdu_bytes(kind, body));
            assert(sub.len() == pdu_bytes(kind, body).len());
            lemma_pdu_read(sub, 0, kind, body);
            let b = spec_pdu_body(sub, 0);
            assert(b.subrange(0, b.len() as int) =~= b);
            lemma_advertisement(b, a);
        },
    }
}

/// Decoding a datagram made of the identifier and a base PDU whose body is
/// the base fields and a message sub-layer.
proof fn lemma_packet_parts(buf: Seq<u8>, p: PacketModel)
    requires
        packet_fits(p),
        buf.subrange(0, buf.len() as int) == spec_packet_ident() + pdu_bytes(
            message_layer(p.message).0,
            base_fields_bytes(p.layer) + message_layer(p.message).1,
        ),
        buf.len() <= 0xFFFF + 16,
    ensures
        spec_decode_packet(buf) == Ok::<PacketModel, OtpError>(p),
{
    let (bv, sub) = message_layer(p.message);
    let fields = base_fields_bytes(p.layer);
    let base_body = fields + sub;
    lemma_split_tail(buf, 0, spec_packet_ident(), pdu_bytes(bv, base_body));
    assert(buf.subrange(0, 12) == spec_packet_ident());
    let rest = buf.subrange(12, buf.len() as int);
    assert(rest.subrange(0, rest.len() as int) =~= rest);
    lemma_pdu_read(rest, 0, bv, base_body);
    assert(spec_read_one(rest) == Ok::<Option<u16>, OtpError>(Some(bv)));
    let body = spec_pdu_body(rest, 0);
    lemma_name_field(p.layer.component_name);
    assert(fields.len() == 63);
    assert(body.subrange(0, body.len() as int) =~= fields + sub);
    lemma_split_tail(body, 0, fields, sub);
    lemma_base_fields(body, p.layer);
    let s = body.subrange(63, body.len() as int);
    assert(s.subrange(0, s.len() as int) =~= s);
    lemma_message(s, p.message, buf.len() as int);
    assert(PacketModel { layer: p.layer, message: p.message } == p);
}

/// Round trip: decoding what `Packet::encode` writes gives the packet back,
/// for a 16-octet CID, names of at most 32 UTF-8 octets without NUL, points
/// that belong to their message's system and carry velocities and
/// accelerations in pairs, an advertisement of a known kind, and a datagram
/// whose base PDU fits the 16-bit length.
pub proof fn lemma_decode_encode(p: PacketModel)
    requires
        packet_fits(p),
        spec_encode_packet(p).len() <= 0xFFFF + 16,
    ensures
        spec_decode_packet(spec_encode_packet(p)) == Ok::<PacketModel, OtpError>(p),
{
    let buf = spec_encode_packet(p);
    assert(buf.subrange(0, buf.len() as int) =~= buf);
    lemma_packet_parts(buf, p);
}


// ---------------------------------------------------------------------------
// Laws of the parts
// ---------------------------------------------------------------------------

/// The bytes of a run of PDUs, one after another.
pub open spec fn pdus_bytes(ps: Seq<(u16, Seq<u8>)>) -> Seq<u8>
    decreases ps.len(),
{
    if ps.len() == 0 {
        Seq::empty()
    } else {
        pdu_bytes(ps[0].0, ps[0].1) + pdus_bytes(ps.drop_first())
    }
}

/// The PDUs of a run, each handed out as it is.
pub open spec fn ok_pdus(ps: Seq<(u16, Seq<u8>)>) -> Seq<PduItem> {
    ps.map_values(|p: (u16, Seq<u8>)| Ok::<(u16, Seq<u8>), OtpError>(p))
}

proof fn lemma_pdu_run_at(s: Seq<u8>, pos: int, ps: Seq<(u16, Seq<u8>)>, tail: Seq<u8>)
    requires
        0 <= pos <= s.len(),
        tail.len() < 4,
        forall|i: int| 0 <= i < ps.len() ==> (#[trigger] ps[i]).1.len() <= 0xFFFF,
        s.subrange(pos, s.len() as int) == pdus_bytes(ps) + tail,
    ensures
        spec_pdu_items(s, pos, false) == ok_pdus(ps),
    decreases ps.len(),
{
    if ps.len() == 0 {
        assert(s.subrange(pos, s.len() as int) =~= tail);
        assert(ok_pdus(ps) =~= Seq::<PduItem>::empty());
    } else {
        let p = ps[0];
        let rest = ps.drop_first();
        let first = pdu_bytes(p.0, p.1);
        assert(pdus_bytes(ps) + tail =~= first + (pdus_bytes(rest) + tail));
        lemma_split_tail(s, pos, first, pdus_bytes(rest) + tail);
        lemma_pdu_read(s, pos, p.0, p.1);
        assert forall|i: int| 0 <= i < rest.len() implies (#[trigger] rest[i]).1.len() <= 0xFFFF by {
            assert(rest[i] == ps[i + 1]);
        }
        lemma_pdu_run_at(s, pos + first.len(), rest, tail);
        assert(ok_pdus(ps) =~= seq![Ok::<(u16, Seq<u8>), OtpError>(p)] + ok_pdus(rest));
    }
}

/// A PDU reader over a run of PDUs followed by fewer than four bytes hands
/// out those PDUs in order and then nothing: a remainder under four bytes is
/// padding, not an error.
pub proof fn lemma_pdu_reader_run(ps: Seq<(u16, Seq<u8>)>, tail: Seq<u8>)
    requires
        tail.len() < 4,
        forall|i: int| 0 <= i < ps.len() ==> (#[trigger] ps[i]).1.len() <= 0xFFFF,
    ensures
        spec_pdu_items(pdus_bytes(ps) + tail, 0, false) == ok_pdus(ps),
{
    let s = pdus_bytes(ps) + tail;
    assert(s.subrange(0, s.len() as int) =~= s);
    lemma_pdu_run_at(s, 0, ps, tail);
}

/// A name that fits is written into its 32-octet field so that reading the
/// field gives the name back.
pub proof fn lemma_name_field_read_back(n: Seq<char>)
    requires
        name_fits(n),
    ensures
        name_field_bytes(encode_utf8(n)).len() == 32,
        spec_fixed_name(name_field_bytes(encode_utf8(n))) == n,
{
    lemma_name_field(n);
}

/// Round trip for advertisements: the advertisement layer written for a
/// module, name or system advertisement whose names fit their fields, and
/// whose inner list body fits a PDU (the layer adds 8 octets to it), decodes
/// with its kind back to the advertisement.
pub proof fn lemma_decode_encode_advertisement(a: AdvertisementModel)
    requires
        message_fits(MessageModel::Advertisement(a)),
        advertisement_layer(a).unwrap().1.len() <= 0xFFFF + 8,
    ensures
        advertisement_layer(a) is Some,
        spec_advertisement(advertisement_layer(a).unwrap().0, advertisement_layer(a).unwrap().1)
            == Ok::<AdvertisementModel, OtpError>(a),
{
    let b = advertisement_layer(a).unwrap().1;
    assert(b.subrange(0, b.len() as int) =~= b);
    lemma_advertisement(b, a);
}


// ---------------------------------------------------------------------------
// Manufacturer-specific modules
// ---------------------------------------------------------------------------

/// The point of a decode result, or `None` for an error.
pub open spec fn point_or_none(r: Result<Point, OtpError>) -> Option<Point> {
    match r {
        Ok(p) => Some(p),
        Err(_) => None,
    }
}

/// Reading module PDUs does not depend on where in a buffer they stand:
/// module PDUs at `pos` of `s` give the same point when bytes are put before
/// them (error offsets aside).
proof fn lemma_point_modules_shift(pre: Seq<u8>, s: Seq<u8>, pos: int, p: Point)
    requires
        0 <= pos,
    ensures
        point_or_none(spec_point_modules(pre + s, pre.len() + pos, p)) == point_or_none(
            spec_point_modules(s, pos, p),
        ),
    decreases s.len() - pos,
{
    let t = pre + s;
    let q = pre.len() + pos;
    if spec_pdu_present(s, pos) {
        assert(t[q] == s[pos]);
        assert(t[q + 1] == s[pos + 1]);
        assert(t[q + 2] == s[pos + 2]);
        assert(t[q + 3] == s[pos + 3]);
        assert(be16_at(t, q) == be16_at(s, pos));
        assert(be16_at(t, q + 2) == be16_at(s, pos + 2));
        if spec_pdu_end(s, pos) <= s.len() {
            assert(spec_pdu_body(t, q) =~= spec_pdu_body(s, pos));
            assert(spec_pdu_end(t, q) == pre.len() + spec_pdu_end(s, pos));
            match spec_pdu_at(s, pos) {
                Ok(v) => {
                    if v != 0 {
                        lemma_point_modules_shift(pre, s, spec_pdu_end(s, pos), p);
                    } else {
                        match spec_module_pdu(p, spec_pdu_body(s, pos)) {
                            Ok(p2) => {
                                lemma_point_modules_shift(pre, s, spec_pdu_end(s, pos), p2);
                            },
                            Err(e) => {},
                        }
                    }
                },
                Err(e) => {},
            }
        }
    }
}

/// Module PDUs that open with the PDU `(v, b)`: an ESTA module is applied,
/// any other is passed over, and the rest is read as on its own.
proof fn lemma_module_step(v: u16, b: Seq<u8>, z: Seq<u8>, p: Point)
    requires
        b.len() <= 0xFFFF,
    ensures
        point_or_none(spec_point_modules(pdu_bytes(v, b) + z, 0, p)) == (if v != 0 {
            point_or_none(spec_point_modules(z, 0, p))
        } else {
            match spec_module_pdu(p, b) {
                Ok(p2) => point_or_none(spec_point_modules(z, 0, p2)),
                Err(_) => None,
            }
        }),
{
    let first = pdu_bytes(v, b);
    let a = first + z;
    assert(a.subrange(0, first.len() as int) =~= first);
    lemma_pdu_read(a, 0, v, b);
    if v != 0 {
        lemma_point_modules_shift(first, z, 0, p);
    } else {
        match spec_module_pdu(p, b) {
            Ok(p2) => {
                lemma_point_modules_shift(first, z, 0, p2);
            },
            Err(_) => {},
        }
    }
}

/// A manufacturer-specific module never changes a point: module PDUs with
/// a manufacturer-specific PDU (any vector but ESTA's zero) put among them,
/// after any run of module PDUs, give the same point as without it.
pub proof fn lemma_vendor_module_skipped(
    ps: Seq<(u16, Seq<u8>)>,
    v: u16,
    d: Seq<u8>,
    rest: Seq<u8>,
    p: Point,
)
    requires
        v != 0,
        d.len() <= 0xFFFF,
        forall|i: int| 0 <= i < ps.len() ==> (#[trigger] ps[i]).1.len() <= 0xFFFF,
    ensures
        point_or_none(spec_point_modules(pdus_bytes(ps) + pdu_bytes(v, d) + rest, 0, p))
            == point_or_none(spec_point_modules(pdus_bytes(ps) + rest, 0, p)),
    decreases ps.len(),
{
    if ps.len() == 0 {
        assert(pdus_bytes(ps) + pdu_bytes(v, d) + rest =~= pdu_bytes(v, d) + rest);
        assert(pdus_bytes(ps) + rest =~= rest);
        lemma_module_step(v, d, rest, p);
    } else {
        let f = ps[0];
        let tail = ps.drop_first();
        let a2 = pdus_bytes(tail) + pdu_bytes(v, d) + rest;
        let b2 = pdus_bytes(tail) + rest;
        assert(pdus_bytes(ps) + pdu_bytes(v, d) + rest =~= pdu_bytes(f.0, f.1) + a2);
        assert(pdus_bytes(ps) + rest =~= pdu_bytes(f.0, f.1) + b2);
        assert(f.1.len() <= 0xFFFF);
        lemma_module_step(f.0, f.1, a2, p);
        lemma_module_step(f.0, f.1, b2, p);
        assert forall|i: int| 0 <= i < tail.len() implies (#[trigger] tail[i]).1.len() <= 0xFFFF by {
            assert(tail[i] == ps[i + 1]);
        }
        if f.0 != 0 {
            lemma_vendor_module_skipped(tail, v, d, rest, p);
        } else {
            match spec_module_pdu(p, f.1) {
                Ok(p2) => {
                    lemma_vendor_module_skipped(tail, v, d, rest, p2);
                },
                Err(e) => {},
            }
        }
    }
}

/// A point PDU whose modules include a manufacturer-specific module decodes
/// to the same point as without that module: only ESTA modules set fields.
pub proof fn lemma_point_vendor_module_skipped(
    system: u8,
    head: Seq<u8>,
    ps: Seq<(u16, Seq<u8>)>,
    v: u16,
    d: Seq<u8>,
    rest: Seq<u8>,
)
    requires
        head.len() == 20,
        v != 0,
        d.len() <= 0xFFFF,
        forall|i: int| 0 <= i < ps.len() ==> (#[trigger] ps[i]).1.len() <= 0xFFFF,
    ensures
        point_or_none(spec_point(system, head + (pdus_bytes(ps) + pdu_bytes(v, d) + rest)))
            == point_or_none(spec_point(system, head + (pdus_bytes(ps) + rest))),
{
    reveal(spec_point);
    let x = head + (pdus_bytes(ps) + pdu_bytes(v, d) + rest);
    let y = head + (pdus_bytes(ps) + rest);
    assert(x.subrange(20, x.len() as int) =~= pdus_bytes(ps) + pdu_bytes(v, d) + rest);
    assert(y.subrange(20, y.len() as int) =~= pdus_bytes(ps) + rest);
    assert forall|i: int| 0 <= i < 20 implies x[i] == head[i] && y[i] == head[i] by {}
    assert(be16_at(x, 1) == be16_at(y, 1));
    assert(be32_at(x, 3) == be32_at(y, 3));
    assert(be64_at(x, 7) == be64_at(y, 7)) by {
        assert(be32_at(x, 7) == be32_at(y, 7));
        assert(be32_at(x, 11) == be32_at(y, 11));
    }
    lemma_vendor_module_skipped(
        ps,
        v,
        d,
        rest,
        bare_point(Address { system, group: be16_at(x, 1), point: be32_at(x, 3) }, x[0], be64_at(x, 7)),
    );
}

} // verus!
