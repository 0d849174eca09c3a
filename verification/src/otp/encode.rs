//! OTP encoders: build a transform or advertisement datagram from the typed
//! structs; the inverse of decoding. Big-endian throughout. Module values are
//! written as the scaled integers they hold. The position/velocity-
//! acceleration and rotation/velocity-acceleration modules each carry a
//! velocity and an acceleration; they are written when either is present,
//! the absent one as zero.
use super::advertisement::{
    AdvertisementMessage, AdvertisementModel, ModuleIdent, PointName, PointNameModel,
    point_names_model, VECTOR_ADV_MODULE, VECTOR_ADV_NAME, VECTOR_ADV_SYSTEM, VECTOR_LIST,
};
use super::modules::{
    Address, Position, UVec3, Vec3, MANUFACTURER_ESTA, POSITION, POSITION_VEL_ACCEL,
    REFERENCE_FRAME, ROTATION, ROTATION_VEL_ACCEL, SCALE,
};
use super::transform::{Point, TransformMessage, TransformModel, VECTOR_POINT, VECTOR_TRANSFORM};
use super::{
    LayerModel, Message, MessageModel, Packet, PacketModel, spec_packet_ident, PACKET_IDENT,
    VECTOR_ADVERTISEMENT_MESSAGE, VECTOR_TRANSFORM_MESSAGE,
};
use crate::bytes::{be16_bytes, be32_bytes, be64_bytes, push_all, push_be16, push_be32, push_be64};
use vstd::prelude::*;
use vstd::string::StringSliceAdditionalSpecFns;
use vstd::utf8::is_char_boundary;

verus! {

// ---------------------------------------------------------------------------
// What the encoders write
// ---------------------------------------------------------------------------

/// A PDU: vector, body length (truncated to 16 bits), body.
pub open spec fn pdu_bytes(vector: u16, body: Seq<u8>) -> Seq<u8> {
    be16_bytes(vector) + be16_bytes(body.len() as u16) + body
}

/// The twelve big-endian bytes of a signed vector.
pub open spec fn ivec3_bytes(v: Vec3) -> Seq<u8> {
    be32_bytes(v.x as u32) + be32_bytes(v.y as u32) + be32_bytes(v.z as u32)
}

/// The twelve big-endian bytes of an unsigned vector.
pub open spec fn uvec3_bytes(v: UVec3) -> Seq<u8> {
    be32_bytes(v.x) + be32_bytes(v.y) + be32_bytes(v.z)
}

/// The vector with all components zero.
pub open spec fn zero_vec3() -> Vec3 {
    Vec3 { x: 0, y: 0, z: 0 }
}

/// `v`, or the zero vector where there is none.
pub open spec fn vec3_or_zero(v: Option<Vec3>) -> Vec3 {
    match v {
        Some(x) => x,
        None => zero_vec3(),
    }
}

/// A position module's data: the scaling byte, then the vector.
pub open spec fn position_data(p: Position) -> Seq<u8> {
    seq![if p.millimetres { 0x80u8 } else { 0u8 }] + ivec3_bytes(p.value)
}

/// An address on the wire: system, group, point.
pub open spec fn address_bytes(a: Address) -> Seq<u8> {
    seq![a.system] + be16_bytes(a.group) + be32_bytes(a.point)
}

/// A standard (ESTA) module PDU: module number, then data.
pub open spec fn module_bytes(number: u16, data: Seq<u8>) -> Seq<u8> {
    pdu_bytes(0, be16_bytes(number) + data)
}

/// The module PDU of slot `k` of a point (0 position, 1 position
/// velocity/acceleration, 2 rotation, 3 rotation velocity/acceleration,
/// 4 scale, 5 reference frame), empty when the point has nothing for it.
#[verifier::opaque]
pub open spec fn module_slot(p: Point, k: int) -> Seq<u8> {
    if k == 0 {
        match p.position {
            Some(v) => module_bytes(1, position_data(v)),
            None => Seq::empty(),
        }
    } else if k == 1 {
        if p.velocity is Some || p.acceleration is Some {
            module_bytes(
                2,
                ivec3_bytes(vec3_or_zero(p.velocity)) + ivec3_bytes(vec3_or_zero(p.acceleration)),
            )
        } else {
            Seq::empty()
        }
    } else if k == 2 {
        match p.rotation {
            Some(v) => module_bytes(3, uvec3_bytes(v)),
            None => Seq::empty(),
        }
    } else if k == 3 {
        if p.rotation_velocity is Some || p.rotation_acceleration is Some {
            module_bytes(
                4,
                ivec3_bytes(vec3_or_zero(p.rotation_velocity)) + ivec3_bytes(
                    vec3_or_zero(p.rotation_acceleration),
                ),
            )
        } else {
            Seq::empty()
        }
    } else if k == 4 {
        match p.scale {
            Some(v) => module_bytes(5, ivec3_bytes(v)),
            None => Seq::empty(),
        }
    } else if k == 5 {
        match p.reference_frame {
            Some(a) => module_bytes(6, address_bytes(a)),
            None => Seq::empty(),
        }
    } else {
        Seq::empty()
    }
}

/// The module PDUs of a point from slot `k` on.
pub open spec fn modules_from(p: Point, k: int) -> Seq<u8>
    decreases 6 - k,
{
    if k >= 6 {
        Seq::empty()
    } else {
        module_slot(p, k) + modules_from(p, k + 1)
    }
}

/// The body of a point PDU: fixed fields, then module PDUs.
pub open spec fn point_body(p: Point) -> Seq<u8> {
    seq![p.priority] + be16_bytes(p.address.group) + be32_bytes(p.address.point) + be64_bytes(
        p.timestamp_us,
    ) + seq![0u8] + be32_bytes(0) + modules_from(p, 0)
}

/// The point PDUs of a list of points.
pub open spec fn point_list(ps: Seq<Point>) -> Seq<u8>
    decreases ps.len(),
{
    if ps.len() == 0 {
        Seq::empty()
    } else {
        point_list(ps.drop_last()) + pdu_bytes(1, point_body(ps.last()))
    }
}

/// The transform-layer body: system, timestamp, options, reserved, points.
pub open spec fn transform_body(t: TransformModel) -> Seq<u8> {
    seq![t.system] + be64_bytes(t.timestamp_us) + seq![if t.full_point_set { 0x80u8 } else { 0u8 }]
        + be32_bytes(0) + point_list(t.points)
}

/// The largest character boundary of `b` at or below `n`.
pub open spec fn boundary_at_or_below(b: Seq<u8>, n: int) -> int
    decreases n,
{
    if n <= 0 {
        0
    } else if is_char_boundary(b, n) {
        n
    } else {
        boundary_at_or_below(b, n - 1)
    }
}

/// `n` zero bytes.
pub open spec fn zeros(n: int) -> Seq<u8> {
    Seq::new(n as nat, |i: int| 0u8)
}

/// A 32-octet, NUL-padded name field holding the UTF-8 bytes `b`, cut to at
/// most 32 octets on a character boundary.
pub open spec fn name_field_bytes(b: Seq<u8>) -> Seq<u8> {
    let n = boundary_at_or_below(b, if b.len() < 32 { b.len() as int } else { 32 });
    b.subrange(0, n) + zeros(32 - n)
}

/// The (manufacturer, module) pairs of a module list, four bytes each.
pub open spec fn module_entries_bytes(ms: Seq<ModuleIdent>) -> Seq<u8>
    decreases ms.len(),
{
    if ms.len() == 0 {
        Seq::empty()
    } else {
        module_entries_bytes(ms.drop_last()) + be16_bytes(ms.last().manufacturer) + be16_bytes(
            ms.last().module,
        )
    }
}

/// One name-list entry: the address, then the 32-octet name field.
pub open spec fn name_entry_bytes(n: PointNameModel) -> Seq<u8> {
    address_bytes(n.address) + name_field_bytes(vstd::utf8::encode_utf8(n.name))
}

/// The entries of a name list, one after another.
pub open spec fn name_entries_bytes(ns: Seq<PointNameModel>) -> Seq<u8>
    decreases ns.len(),
{
    if ns.len() == 0 {
        Seq::empty()
    } else {
        name_entries_bytes(ns.drop_last()) + name_entry_bytes(ns.last())
    }
}

/// The advertisement-layer vector (the kind) and body: reserved, then the
/// inner list PDU; `None` for an unknown advertisement.
pub open spec fn advertisement_layer(a: AdvertisementModel) -> Option<(u16, Seq<u8>)> {
    match a {
        AdvertisementModel::Module(ms) => Some(
            (1u16, be32_bytes(0) + pdu_bytes(1, be32_bytes(0) + module_entries_bytes(ms))),
        ),
        AdvertisementModel::Name { is_response, names } => Some(
            (
                2u16,
                be32_bytes(0) + pdu_bytes(
                    1,
                    seq![if is_response { 0x80u8 } else { 0u8 }] + be32_bytes(0)
                        + name_entries_bytes(names),
                ),
            ),
        ),
        AdvertisementModel::System { is_response, systems } => Some(
            (
                3u16,
                be32_bytes(0) + pdu_bytes(
                    1,
                    seq![if is_response { 0x80u8 } else { 0u8 }] + be32_bytes(0) + systems,
                ),
            ),
        ),
        AdvertisementModel::Unknown(_) => None,
    }
}

/// The base vector and the message sub-layer PDU of a message.
pub open spec fn message_layer(m: MessageModel) -> (u16, Seq<u8>) {
    match m {
        MessageModel::Transform(t) => (1u16, pdu_bytes(1, transform_body(t))),
        MessageModel::Advertisement(a) => match advertisement_layer(a) {
            Some((kind, body)) => (2u16, pdu_bytes(kind, body)),
            None => (2u16, pdu_bytes(2, Seq::empty())),
        },
    }
}

/// The base-layer fields (63 octets) of a layer.
pub open spec fn base_fields_bytes(l: LayerModel) -> Seq<u8> {
    seq![0u8, 0u8] + l.cid + be32_bytes(l.folio) + be16_bytes(l.page) + be16_bytes(l.last_page)
        + seq![0u8] + be32_bytes(0) + name_field_bytes(vstd::utf8::encode_utf8(l.component_name))
}

/// The datagram of a packet: identifier, then the base PDU.
pub open spec fn spec_encode_packet(p: PacketModel) -> Seq<u8> {
    spec_packet_ident() + pdu_bytes(
        message_layer(p.message).0,
        base_fields_bytes(p.layer) + message_layer(p.message).1,
    )
}

// ---------------------------------------------------------------------------
// Encoders
// ---------------------------------------------------------------------------

/// Wrap `body` in a PDU header: vector(2) + length(2) + body, big-endian.
fn pdu(vector: u16, body: &[u8]) -> (v: Vec<u8>)
    ensures
        v@ == pdu_bytes(vector, body@),
{
    let mut v: Vec<u8> = Vec::new();
    push_be16(&mut v, vector);
    push_be16(&mut v, body.len() as u16);
    push_all(&mut v, body);
    assert(v@ =~= pdu_bytes(vector, body@));
    v
}

fn push_vec3(out: &mut Vec<u8>, v: Vec3)
    ensures
        final(out)@ == old(out)@ + ivec3_bytes(v),
{
    push_be32(out, v.x as u32);
    push_be32(out, v.y as u32);
    push_be32(out, v.z as u32);
    assert(out@ =~= old(out)@ + ivec3_bytes(v));
}

fn module(number: u16, data: &[u8]) -> (v: Vec<u8>)
    ensures
        v@ == module_bytes(number, data@),
{
    let mut body: Vec<u8> = Vec::new();
    push_be16(&mut body, number);
    push_all(&mut body, data);
    pdu(MANUFACTURER_ESTA, body.as_slice())
}

fn vec3_or_default(v: Option<Vec3>) -> (r: Vec3)
    ensures
        r == vec3_or_zero(v),
{
    match v {
        Some(x) => x,
        None => Vec3 { x: 0, y: 0, z: 0 },
    }
}

proof fn lemma_modules_flat(p: Point)
    ensures
        modules_from(p, 0) == module_slot(p, 0) + module_slot(p, 1) + module_slot(p, 2)
            + module_slot(p, 3) + module_slot(p, 4) + module_slot(p, 5),
{
    let m0 = module_slot(p, 0);
    let m1 = module_slot(p, 1);
    let m2 = module_slot(p, 2);
    let m3 = module_slot(p, 3);
    let m4 = module_slot(p, 4);
    let m5 = module_slot(p, 5);
    assert(modules_from(p, 6) =~= Seq::<u8>::empty());
    assert(modules_from(p, 5) =~= m5);
    assert(modules_from(p, 4) == m4 + modules_from(p, 5));
    assert(modules_from(p, 3) == m3 + modules_from(p, 4));
    assert(modules_from(p, 2) == m2 + modules_from(p, 3));
    assert(modules_from(p, 1) == m1 + modules_from(p, 2));
    assert(modules_from(p, 0) == m0 + modules_from(p, 1));
    assert(m4 + m5 =~= modules_from(p, 4));
    assert(m3 + m4 + m5 =~= modules_from(p, 3));
    assert(m2 + m3 + m4 + m5 =~= modules_from(p, 2));
    assert(m1 + m2 + m3 + m4 + m5 =~= modules_from(p, 1));
    assert(m0 + m1 + m2 + m3 + m4 + m5 =~= modules_from(p, 0));
}

fn encode_modules(p: &Point) -> (out: Vec<u8>)
    ensures
        out@ == modules_from(*p, 0),
{
    reveal(module_slot);
    let mut out: Vec<u8> = Vec::new();
    if let Some(pos) = p.position {
        let mut d: Vec<u8> = Vec::new();
        d.push(if pos.millimetres { 0x80 } else { 0 });  // scaling options: bit 7 set -> mm
        push_vec3(&mut d, pos.value);
        push_all(&mut out, module(POSITION, d.as_slice()).as_slice());
    }
    assert(out@ =~= module_slot(*p, 0));
    if p.velocity.is_some() || p.acceleration.is_some() {
        let mut d: Vec<u8> = Vec::new();
        push_vec3(&mut d, vec3_or_default(p.velocity));  // µm/s
        push_vec3(&mut d, vec3_or_default(p.acceleration));  // µm/s²
        push_all(&mut out, module(POSITION_VEL_ACCEL, d.as_slice()).as_slice());
    }
    assert(out@ =~= module_slot(*p, 0) + module_slot(*p, 1));
    if let Some(rot) = p.rotation {
        let mut d: Vec<u8> = Vec::new();
        push_be32(&mut d, rot.x);  // millionths of a degree
        push_be32(&mut d, rot.y);
        push_be32(&mut d, rot.z);
        assert(d@ =~= uvec3_bytes(rot));
        push_all(&mut out, module(ROTATION, d.as_slice()).as_slice());
    }
    assert(out@ =~= module_slot(*p, 0) + module_slot(*p, 1) + module_slot(*p, 2));
    if p.rotation_velocity.is_some() || p.rotation_acceleration.is_some() {
        let mut d: Vec<u8> = Vec::new();
        push_vec3(&mut d, vec3_or_default(p.rotation_velocity));  // thousandths deg/s
        push_vec3(&mut d, vec3_or_default(p.rotation_acceleration));
        push_all(&mut out, module(ROTATION_VEL_ACCEL, d.as_slice()).as_slice());
    }
    assert(out@ =~= module_slot(*p, 0) + module_slot(*p, 1) + module_slot(*p, 2) + module_slot(
        *p,
        3,
    ));
    if let Some(scale) = p.scale {
        let mut d: Vec<u8> = Vec::new();
        push_vec3(&mut d, scale);  // millionths, 1,000,000 == unity
        push_all(&mut out, module(SCALE, d.as_slice()).as_slice());
    }
    assert(out@ =~= module_slot(*p, 0) + module_slot(*p, 1) + module_slot(*p, 2) + module_slot(
        *p,
        3,
    ) + module_slot(*p, 4));
    if let Some(rf) = p.reference_frame {
        let mut d: Vec<u8> = Vec::new();
        d.push(rf.system);
        push_be16(&mut d, rf.group);
        push_be32(&mut d, rf.point);
        assert(d@ =~= address_bytes(rf));
        push_all(&mut out, module(REFERENCE_FRAME, d.as_slice()).as_slice());
    }
    assert(out@ =~= module_slot(*p, 0) + module_slot(*p, 1) + module_slot(*p, 2) + module_slot(
        *p,
        3,
    ) + module_slot(*p, 4) + module_slot(*p, 5));
    proof {
        lemma_modules_flat(*p);
    }
    out
}

fn encode_point(p: &Point) -> (v: Vec<u8>)
    ensures
        v@ == pdu_bytes(1, point_body(*p)),
{
    let mut body: Vec<u8> = Vec::new();
    body.push(p.priority);
    push_be16(&mut body, p.address.group);
    push_be32(&mut body, p.address.point);
    push_be64(&mut body, p.timestamp_us);
    body.push(0);  // options
    push_be32(&mut body, 0);  // reserved
    push_all(&mut body, encode_modules(p).as_slice());
    assert(body@ =~= point_body(*p));
    pdu(VECTOR_POINT, body.as_slice())
}

fn encode_transform_body(t: &TransformMessage) -> (body: Vec<u8>)
    ensures
        body@ == transform_body(t@),
{
    let mut body: Vec<u8> = Vec::new();
    body.push(t.system);
    push_be64(&mut body, t.timestamp_us);
    body.push(if t.full_point_set { 0x80 } else { 0 });  // options
    push_be32(&mut body, 0);  // reserved
    let ghost head = body@;
    let mut i: usize = 0;
    while i < t.points.len()
        invariant
            i <= t.points@.len(),
            body@ == head + point_list(t.points@.take(i as int)),
        decreases t.points@.len() - i,
    {
        let p = t.points[i];
        push_all(&mut body, encode_point(&p).as_slice());
        proof {
            let ps = t.points@.take(i + 1);
            assert(ps.drop_last() =~= t.points@.take(i as int));
            assert(ps.last() == p);
            assert(body@ =~= head + point_list(ps));
        }
        i = i + 1;
    }
    assert(t.points@.take(i as int) =~= t.points@);
    assert(body@ =~= transform_body(t@));
    body
}

/// Encode a 32-octet, NUL-padded name field. Names longer than 32 octets are
/// cut on a UTF-8 character boundary, never inside a code point.
fn name_field(name: &str) -> (buf: Vec<u8>)
    ensures
        buf@ == name_field_bytes(name.spec_bytes()),
{
    let bytes = name.as_bytes();
    let ghost b = name.spec_bytes();
    let ghost top: int = if b.len() < 32 { b.len() as int } else { 32 };
    let mut n: usize = if bytes.len() < 32 { bytes.len() } else { 32 };
    // Back up to the nearest char boundary so no code point is split.
    while n > 0 && !name.is_char_boundary(n)
        invariant
            b == name.spec_bytes(),
            n <= 32,
            n <= b.len(),
            boundary_at_or_below(b, top) == boundary_at_or_below(b, n as int),
        decreases n,
    {
        n = n - 1;
    }
    let mut buf: Vec<u8> = Vec::new();
    let mut i: usize = 0;
    while i < n
        invariant
            i <= n,
            n <= b.len(),
            bytes@ == b,
            buf@ == b.subrange(0, i as int),
        decreases n - i,
    {
        buf.push(bytes[i]);
        i = i + 1;
        assert(buf@ =~= b.subrange(0, i as int));
    }
    while i < 32
        invariant
            n <= i <= 32,
            buf@ == b.subrange(0, n as int) + zeros(i - n),
        decreases 32 - i,
    {
        buf.push(0);
        i = i + 1;
        assert(buf@ =~= b.subrange(0, n as int) + zeros(i - n));
    }
    buf
}

fn encode_advertisement_layer(adv: &AdvertisementMessage) -> (r: Option<(u16, Vec<u8>)>)
    ensures
        match r {
            Some((kind, body)) => advertisement_layer(adv@) == Some((kind, body@)),
            None => advertisement_layer(adv@) is None,
        },
{
    let (kind, inner) = match adv {
        AdvertisementMessage::Module(mods) => {
            let mut b: Vec<u8> = Vec::new();
            push_be32(&mut b, 0);  // reserved (no options for Module)
            let ghost head = b@;
            let mut i: usize = 0;
            while i < mods.len()
                invariant
                    i <= mods@.len(),
                    b@ == head + module_entries_bytes(mods@.take(i as int)),
                decreases mods@.len() - i,
            {
                let m = mods[i];
                push_be16(&mut b, m.manufacturer);
                push_be16(&mut b, m.module);
                proof {
                    let ms = mods@.take(i + 1);
                    assert(ms.drop_last() =~= mods@.take(i as int));
                    assert(ms.last() == m);
                    assert(b@ =~= head + module_entries_bytes(ms));
                }
                i = i + 1;
            }
            assert(mods@.take(i as int) =~= mods@);
            (VECTOR_ADV_MODULE, pdu(VECTOR_LIST, b.as_slice()))
        },
        AdvertisementMessage::Name { is_response, names } => {
            let mut b: Vec<u8> = Vec::new();
            b.push(if *is_response { 0x80 } else { 0 });  // options
            push_be32(&mut b, 0);  // reserved
            let ghost head = b@;
            let ghost model = point_names_model(names@);
            let mut i: usize = 0;
            while i < names.len()
                invariant
                    model == point_names_model(names@),
                    i <= names@.len(),
                    b@ == head + name_entries_bytes(model.take(i as int)),
                decreases names@.len() - i,
            {
                let pn = &names[i];
                b.push(pn.address.system);
                push_be16(&mut b, pn.address.group);
                push_be32(&mut b, pn.address.point);
                push_all(&mut b, name_field(pn.name.as_str()).as_slice());
                proof {
                    let ns = model.take(i + 1);
                    assert(ns.drop_last() =~= model.take(i as int));
                    assert(ns.last() == pn@);
                    assert(b@ =~= head + name_entries_bytes(ns));
                }
                i = i + 1;
            }
            assert(model.take(i as int) =~= model);
            (VECTOR_ADV_NAME, pdu(VECTOR_LIST, b.as_slice()))
        },
        AdvertisementMessage::System { is_response, systems } => {
            let mut b: Vec<u8> = Vec::new();
            b.push(if *is_response { 0x80 } else { 0 });  // options
            push_be32(&mut b, 0);  // reserved
            push_all(&mut b, systems.as_slice());
            (VECTOR_ADV_SYSTEM, pdu(VECTOR_LIST, b.as_slice()))
        },
        AdvertisementMessage::Unknown(_) => return None,
    };
    let mut body: Vec<u8> = Vec::new();
    push_be32(&mut body, 0);  // advertisement-layer reserved
    push_all(&mut body, inner.as_slice());
    Some((kind, body))
}

impl Packet {
    /// Encode this packet into a single OTP datagram. PDU lengths are
    /// truncated to 16 bits.
    pub fn encode(&self) -> (out: Vec<u8>)
        ensures
            out@ == spec_encode_packet(self@),
    {
        let (base_vector, sub) = match &self.message {
            Message::Transform(t) => (
                VECTOR_TRANSFORM_MESSAGE,
                pdu(VECTOR_TRANSFORM, encode_transform_body(t).as_slice()),
            ),
            Message::Advertisement(a) => {
                // The advertisement layer's vector is the advertisement kind;
                // the base-layer vector stays 0x0002.
                let (kind, body) = match encode_advertisement_layer(a) {
                    Some(x) => x,
                    None => (VECTOR_ADVERTISEMENT_MESSAGE, Vec::new()),
                };
                (VECTOR_ADVERTISEMENT_MESSAGE, pdu(kind, body.as_slice()))
            },
        };
        assert(base_vector == message_layer(self@.message).0);
        assert(sub@ == message_layer(self@.message).1);
        // Base-layer fields (63 octets) followed by the message sub-layer.
        let mut base_body: Vec<u8> = Vec::new();
        base_body.push(0);  // footer options
        base_body.push(0);  // footer length
        push_all(&mut base_body, self.layer.cid.as_slice());
        push_be32(&mut base_body, self.layer.folio);
        push_be16(&mut base_body, self.layer.page);
        push_be16(&mut base_body, self.layer.last_page);
        base_body.push(0);  // options
        push_be32(&mut base_body, 0);  // reserved
        push_all(&mut base_body, name_field(self.layer.component_name.as_str()).as_slice());
        assert(base_body@ =~= base_fields_bytes(self.layer@));
        push_all(&mut base_body, sub.as_slice());
        let mut out: Vec<u8> = Vec::new();
        let ident = PACKET_IDENT;
        push_all(&mut out, ident.as_slice());
        assert(ident@ =~= spec_packet_ident());
        push_all(&mut out, pdu(base_vector, base_body.as_slice()).as_slice());
        assert(out@ =~= spec_encode_packet(self@));
        out
    }
}

} // verus!
