//! Transform-message layer: systems → points → modules.
//!
//! ```text
//! Transform Layer  (base Vector = 0x0001)
//!   u8  system          u64 timestamp   u8 options(bit7 = full point set)  u32 reserved
//!   └─ Point PDU (Vector 0x0001), repeated:
//!        u8 priority   u16 group   u32 point   u64 timestamp   u8 options   u32 reserved
//!        └─ Module PDU (vector = manufacturer id), repeated:
//!             u16 module_number   <module data>
//! ```
use super::modules::{
    decode_position, decode_position_vel_accel, decode_reference_frame, decode_rotation,
    decode_rotation_vel_accel, decode_scale, spec_position, spec_read_ivec3, spec_reference_frame,
    spec_rotation, spec_vel_accel, Address, Position, UVec3, Vec3, MANUFACTURER_ESTA, POSITION,
    POSITION_VEL_ACCEL, REFERENCE_FRAME, ROTATION, ROTATION_VEL_ACCEL, SCALE,
};
use super::pdu::{spec_pdu_at, spec_pdu_body, spec_pdu_end, spec_pdu_present, PduReader};
use super::read::{eof, Cursor};
use super::OtpError;
use crate::bytes::{be16_at, be32_at, be64_at};
use vstd::prelude::*;
use vstd::slice::slice_subrange;

verus! {

/// Vector value (in the base layer) selecting the transform message.
pub const VECTOR_TRANSFORM: u16 = 0x0001;

/// Vector value selecting a point PDU inside the transform layer.
pub const VECTOR_POINT: u16 = 0x0001;

/// One point's accumulated transform. Module fields are optional because a
/// sender includes only the modules it has data for.
#[derive(Debug, Clone, Copy, PartialEq, Eq, Default)]
pub struct Point {
    /// Full system/group/point address.
    pub address: Address,
    /// Transmission priority (0..=200; higher wins on merge).
    pub priority: u8,
    /// Point timestamp, microseconds.
    pub timestamp_us: u64,
    /// Position module value.
    pub position: Option<Position>,
    /// Linear velocity, µm/s.
    pub velocity: Option<Vec3>,
    /// Linear acceleration, µm/s².
    pub acceleration: Option<Vec3>,
    /// Rotation (Euler ZYX intrinsic), millionths of a degree.
    pub rotation: Option<UVec3>,
    /// Rotation velocity, thousandths of deg/s.
    pub rotation_velocity: Option<Vec3>,
    /// Rotation acceleration, thousandths of deg/s².
    pub rotation_acceleration: Option<Vec3>,
    /// Scale, millionths (1,000,000 = reference size).
    pub scale: Option<Vec3>,
    /// Reference-frame address this point's transform is relative to.
    pub reference_frame: Option<Address>,
}

/// A point with the given address, priority and timestamp, and no modules.
pub open spec fn bare_point(address: Address, priority: u8, timestamp_us: u64) -> Point {
    Point {
        address,
        priority,
        timestamp_us,
        position: None,
        velocity: None,
        acceleration: None,
        rotation: None,
        rotation_velocity: None,
        rotation_acceleration: None,
        scale: None,
        reference_frame: None,
    }
}

/// `p` after the standard module `number` with data `d`; unknown module
/// numbers leave it as is.
pub open spec fn spec_apply_module(p: Point, number: u16, d: Seq<u8>) -> Result<Point, OtpError> {
    if number == 1 {
        match spec_position(d) {
            Ok(v) => Ok(Point { position: Some(v), ..p }),
            Err(e) => Err(e),
        }
    } else if number == 2 {
        match spec_vel_accel(d) {
            Ok((v, a)) => Ok(Point { velocity: Some(v), acceleration: Some(a), ..p }),
            Err(e) => Err(e),
        }
    } else if number == 3 {
        match spec_rotation(d) {
            Ok(v) => Ok(Point { rotation: Some(v), ..p }),
            Err(e) => Err(e),
        }
    } else if number == 4 {
        match spec_vel_accel(d) {
            Ok((v, a)) => Ok(Point { rotation_velocity: Some(v), rotation_acceleration: Some(a), ..p }),
            Err(e) => Err(e),
        }
    } else if number == 5 {
        match spec_read_ivec3(d, 0) {
            Ok(v) => Ok(Point { scale: Some(v), ..p }),
            Err(e) => Err(e),
        }
    } else if number == 6 {
        match spec_reference_frame(d) {
            Ok(a) => Ok(Point { reference_frame: Some(a), ..p }),
            Err(e) => Err(e),
        }
    } else {
        Ok(p)
    }
}

/// `p` after an ESTA module PDU with body `body`: a module number, then data.
pub open spec fn spec_module_pdu(p: Point, body: Seq<u8>) -> Result<Point, OtpError> {
    if body.len() < 2 {
        Err(eof(0, 2 - body.len()))
    } else {
        spec_apply_module(p, be16_at(body, 0), body.subrange(2, body.len() as int))
    }
}

/// `p` after the module PDUs of `s` from `pos` on; manufacturer-specific
/// modules are skipped.
pub open spec fn spec_point_modules(s: Seq<u8>, pos: int, p: Point) -> Result<Point, OtpError>
    decreases s.len() - pos,
{
    if pos < 0 || !spec_pdu_present(s, pos) {
        Ok(p)
    } else {
        match spec_pdu_at(s, pos) {
            Err(e) => Err(e),
            Ok(v) => if v != 0 {
                spec_point_modules(s, spec_pdu_end(s, pos), p)
            } else {
                match spec_module_pdu(p, spec_pdu_body(s, pos)) {
                    Err(e) => Err(e),
                    Ok(p2) => spec_point_modules(s, spec_pdu_end(s, pos), p2),
                }
            },
        }
    }
}

/// The point of system `system` whose point-PDU body is `body`.
#[verifier::opaque]
pub open spec fn spec_point(system: u8, body: Seq<u8>) -> Result<Point, OtpError> {
    if body.len() < 1 {
        Err(eof(0, 1 - body.len()))
    } else if body.len() < 3 {
        Err(eof(1, 3 - body.len()))
    } else if body.len() < 7 {
        Err(eof(3, 7 - body.len()))
    } else if body.len() < 15 {
        Err(eof(7, 15 - body.len()))
    } else if body.len() < 16 {
        Err(eof(15, 1))
    } else if body.len() < 20 {
        Err(eof(16, 20 - body.len()))
    } else {
        spec_point_modules(
            body.subrange(20, body.len() as int),
            0,
            bare_point(
                Address { system, group: be16_at(body, 1), point: be32_at(body, 3) },
                body[0],
                be64_at(body, 7),
            ),
        )
    }
}

/// `acc` followed by the points of the point PDUs of `s` from `pos` on;
/// PDUs with another vector are skipped.
pub open spec fn spec_points(s: Seq<u8>, pos: int, system: u8, acc: Seq<Point>) -> Result<
    Seq<Point>,
    OtpError,
>
    decreases s.len() - pos,
{
    if pos < 0 || !spec_pdu_present(s, pos) {
        Ok(acc)
    } else {
        match spec_pdu_at(s, pos) {
            Err(e) => Err(e),
            Ok(v) => if v != 1 {
                spec_points(s, spec_pdu_end(s, pos), system, acc)
            } else {
                match spec_point(system, spec_pdu_body(s, pos)) {
                    Err(e) => Err(e),
                    Ok(p) => spec_points(s, spec_pdu_end(s, pos), system, acc.push(p)),
                }
            },
        }
    }
}

/// A decoded transform message for a single OTP system.
#[derive(Debug, Clone, PartialEq)]
pub struct TransformMessage {
    /// System number this message describes.
    pub system: u8,
    /// Message timestamp, microseconds.
    pub timestamp_us: u64,
    /// Whether this message is a full snapshot of the system's points.
    pub full_point_set: bool,
    /// Points carried in this message.
    pub points: Vec<Point>,
}

/// What a transform message holds, as plain values.
#[verifier::ext_equal]
pub struct TransformModel {
    pub system: u8,
    pub timestamp_us: u64,
    pub full_point_set: bool,
    pub points: Seq<Point>,
}

impl View for TransformMessage {
    type V = TransformModel;

    open spec fn view(&self) -> TransformModel {
        TransformModel {
            system: self.system,
            timestamp_us: self.timestamp_us,
            full_point_set: self.full_point_set,
            points: self.points@,
        }
    }
}

/// The transform message that a transform-layer body holds.
pub open spec fn spec_transform(body: Seq<u8>) -> Result<TransformModel, OtpError> {
    if body.len() < 1 {
        Err(eof(0, 1 - body.len()))
    } else if body.len() < 9 {
        Err(eof(1, 9 - body.len()))
    } else if body.len() < 10 {
        Err(eof(9, 1))
    } else if body.len() < 14 {
        Err(eof(10, 14 - body.len()))
    } else {
        match spec_points(body.subrange(14, body.len() as int), 0, body[0], Seq::empty()) {
            Err(e) => Err(e),
            Ok(points) => Ok(
                TransformModel {
                    system: body[0],
                    timestamp_us: be64_at(body, 1),
                    full_point_set: body[9] & 0x80u8 != 0,
                    points,
                },
            ),
        }
    }
}

/// A decode result taken by its model.
pub open spec fn transform_result(r: Result<TransformMessage, OtpError>) -> Result<
    TransformModel,
    OtpError,
> {
    match r {
        Ok(t) => Ok(t@),
        Err(e) => Err(e),
    }
}

impl TransformMessage {
    /// Decode a transform-layer body (the bytes inside the transform PDU).
    pub fn decode(body: &[u8]) -> (r: Result<Self, OtpError>)
        ensures
            transform_result(r) == spec_transform(body@),
    {
        let mut c = Cursor::new(body);
        let system = c.u8()?;
        let timestamp_us = c.u64()?;
        let options = c.u8()?;
        c.skip(4)?;  // reserved
        let full_point_set = options & 0x80 != 0;
        let points_buf = slice_subrange(body, c.position(), body.len());
        let mut points: Vec<Point> = Vec::new();
        let mut reader = PduReader::new(points_buf);
        assert(points_buf@ == body@.subrange(14, body@.len() as int));
        loop
            invariant
                0 <= reader.position() <= points_buf@.len(),
                reader.buffer() == points_buf@,
                !reader.is_done(),
                spec_points(points_buf@, 0, system, Seq::empty()) == spec_points(
                    points_buf@,
                    reader.position(),
                    system,
                    points@,
                ),
                spec_transform(body@) == match spec_points(points_buf@, 0, system, Seq::empty()) {
                    Err(e) => Err(e),
                    Ok(points) => Ok(
                        TransformModel { system, timestamp_us, full_point_set, points },
                    ),
                },
            ensures
                !spec_pdu_present(points_buf@, reader.position()),
                spec_points(points_buf@, 0, system, Seq::empty()) == spec_points(
                    points_buf@,
                    reader.position(),
                    system,
                    points@,
                ),
            decreases points_buf@.len() - reader.position(),
        {
            let ghost pos = reader.position();
            let point_pdu = match reader.next() {
                None => break,
                Some(Err(e)) => return Err(e),
                Some(Ok(p)) => p,
            };
            proof {
                assert(spec_points(points_buf@, pos, system, points@) == if point_pdu.vector != 1 {
                    spec_points(points_buf@, reader.position(), system, points@)
                } else {
                    match spec_point(system, point_pdu.body@) {
                        Err(e) => Err(e),
                        Ok(p) => spec_points(points_buf@, reader.position(), system, points@.push(p)),
                    }
                });
            }
            if point_pdu.vector != VECTOR_POINT {
                continue;
            }
            points.push(decode_point(system, point_pdu.body)?);
        }
        Ok(Self { system, timestamp_us, full_point_set, points })
    }
}

fn decode_point(system: u8, body: &[u8]) -> (r: Result<Point, OtpError>)
    ensures
        r == spec_point(system, body@),
{
    reveal(spec_point);
    let mut c = Cursor::new(body);
    let priority = c.u8()?;
    let group = c.u16()?;
    let point_num = c.u32()?;
    let timestamp_us = c.u64()?;
    let _options = c.u8()?;
    c.skip(4)?;  // reserved
    let mut point = Point {
        address: Address { system, group, point: point_num },
        priority,
        timestamp_us,
        position: None,
        velocity: None,
        acceleration: None,
        rotation: None,
        rotation_velocity: None,
        rotation_acceleration: None,
        scale: None,
        reference_frame: None,
    };
    let modules_buf = slice_subrange(body, c.position(), body.len());
    let ghost start = point;
    let mut reader = PduReader::new(modules_buf);
    assert(modules_buf@ == body@.subrange(20, body@.len() as int));
    loop
        invariant
            0 <= reader.position() <= modules_buf@.len(),
            reader.buffer() == modules_buf@,
            !reader.is_done(),
            spec_point_modules(modules_buf@, 0, start) == spec_point_modules(
                modules_buf@,
                reader.position(),
                point,
            ),
            spec_point(system, body@) == spec_point_modules(modules_buf@, 0, start),
        ensures
            !spec_pdu_present(modules_buf@, reader.position()),
            spec_point_modules(modules_buf@, 0, start) == spec_point_modules(
                modules_buf@,
                reader.position(),
                point,
            ),
        decreases modules_buf@.len() - reader.position(),
    {
        let ghost pos = reader.position();
        let module_pdu = match reader.next() {
            None => break,
            Some(Err(e)) => return Err(e),
            Some(Ok(p)) => p,
        };
        proof {
            assert(spec_point_modules(modules_buf@, pos, point) == if module_pdu.vector != 0 {
                spec_point_modules(modules_buf@, reader.position(), point)
            } else {
                match spec_module_pdu(point, module_pdu.body@) {
                    Err(e) => Err(e),
                    Ok(p2) => spec_point_modules(modules_buf@, reader.position(), p2),
                }
            });
        }
        // The vector of a module PDU is its manufacturer id.
        if module_pdu.vector != MANUFACTURER_ESTA {
            continue;  // skip manufacturer-specific modules
        }
        let mut mc = Cursor::new(module_pdu.body);
        let module_number = mc.u16()?;
        let data = slice_subrange(module_pdu.body, mc.position(), module_pdu.body.len());
        assert(data@ == module_pdu.body@.subrange(2, module_pdu.body@.len() as int));
        apply_module(&mut point, module_number, data)?;
    }
    Ok(point)
}

fn apply_module(point: &mut Point, number: u16, data: &[u8]) -> (r: Result<(), OtpError>)
    ensures
        match r {
            Ok(()) => spec_apply_module(*old(point), number, data@) == Ok::<Point, OtpError>(
                *final(point),
            ),
            Err(e) => spec_apply_module(*old(point), number, data@) == Err::<Point, OtpError>(e),
        },
{
    match number {
        POSITION => point.position = Some(decode_position(data)?),
        POSITION_VEL_ACCEL => {
            let (v, a) = decode_position_vel_accel(data)?;
            point.velocity = Some(v);
            point.acceleration = Some(a);
        },
        ROTATION => point.rotation = Some(decode_rotation(data)?),
        ROTATION_VEL_ACCEL => {
            let (v, a) = decode_rotation_vel_accel(data)?;
            point.rotation_velocity = Some(v);
            point.rotation_acceleration = Some(a);
        },
        SCALE => point.scale = Some(decode_scale(data)?),
        REFERENCE_FRAME => point.reference_frame = Some(decode_reference_frame(data)?),
        _ => {},  // unknown standard module: ignore
    }
    Ok(())
}

} // verus!
