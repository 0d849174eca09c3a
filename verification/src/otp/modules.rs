//! Standard ESTA modules (manufacturer id `0x0000`).
//!
//! Each module carries one aspect of a point's transform as scaled integers,
//! kept here as they are on the wire:
//!
//! | Module | # | Wire values |
//! |--------|---|-------------|
//! | Position | `0x0001` | options octet (bit 7: mm, else µm), then X, Y, Z `i32` |
//! | Position Velocity/Accel | `0x0002` | µm/s and µm/s², `i32` |
//! | Rotation | `0x0003` | millionths of a degree, `u32` |
//! | Rotation Velocity/Accel | `0x0004` | thousandths of deg/s and deg/s², `i32` |
//! | Scale | `0x0005` | millionths, `i32` (1,000,000 = reference size) |
//! | Reference Frame | `0x0006` | system/group/point address |
use super::read::{eof, Cursor};
use super::OtpError;
use crate::bytes::{be16_at, be32_at};
use vstd::prelude::*;

verus! {

/// ESTA standard manufacturer id.
pub const MANUFACTURER_ESTA: u16 = 0x0000;

/// Position module.
pub const POSITION: u16 = 0x0001;

/// Position velocity/acceleration module.
pub const POSITION_VEL_ACCEL: u16 = 0x0002;

/// Rotation module.
pub const ROTATION: u16 = 0x0003;

/// Rotation velocity/acceleration module.
pub const ROTATION_VEL_ACCEL: u16 = 0x0004;

/// Scale module.
pub const SCALE: u16 = 0x0005;

/// Reference-frame module.
pub const REFERENCE_FRAME: u16 = 0x0006;

/// An OTP point address: system, group, point.
#[derive(Debug, Clone, Copy, PartialEq, Eq, Hash, Default, Structural)]
pub struct Address {
    /// System number (1..=200).
    pub system: u8,
    /// Group number.
    pub group: u16,
    /// Point number.
    pub point: u32,
}

/// Three signed scaled-integer components.
#[derive(Debug, Clone, Copy, PartialEq, Eq, Default, Structural)]
pub struct Vec3 {
    /// X component.
    pub x: i32,
    /// Y component.
    pub y: i32,
    /// Z component.
    pub z: i32,
}

impl Vec3 {
    /// Construct a vector from components.
    pub fn new(x: i32, y: i32, z: i32) -> (v: Self)
        ensures
            v == (Vec3 { x, y, z }),
    {
        Self { x, y, z }
    }
}

/// Three unsigned scaled-integer components (rotation, millionths of a
/// degree).
#[derive(Debug, Clone, Copy, PartialEq, Eq, Default, Structural)]
pub struct UVec3 {
    /// X component.
    pub x: u32,
    /// Y component.
    pub y: u32,
    /// Z component.
    pub z: u32,
}

/// A position module's value: micrometres, or millimetres when the scaling
/// bit is set.
#[derive(Debug, Clone, Copy, PartialEq, Eq, Default, Structural)]
pub struct Position {
    /// Bit 7 of the options octet: the components are millimetres.
    pub millimetres: bool,
    /// The components.
    pub value: Vec3,
}

/// The `i32` stored big-endian at `d[i..i + 4]`.
pub open spec fn i32_at(d: Seq<u8>, i: int) -> i32 {
    be32_at(d, i) as i32
}

/// Three `i32` at `start`, each read in turn, as the cursor reads them.
pub open spec fn spec_read_ivec3(d: Seq<u8>, start: int) -> Result<Vec3, OtpError> {
    if d.len() < start + 4 {
        Err(eof(start, start + 4 - d.len()))
    } else if d.len() < start + 8 {
        Err(eof(start + 4, start + 8 - d.len()))
    } else if d.len() < start + 12 {
        Err(eof(start + 8, start + 12 - d.len()))
    } else {
        Ok(Vec3 { x: i32_at(d, start), y: i32_at(d, start + 4), z: i32_at(d, start + 8) })
    }
}

/// The position module's value that `d` holds.
pub open spec fn spec_position(d: Seq<u8>) -> Result<Position, OtpError> {
    if d.len() < 1 {
        Err(eof(0, 1 - d.len()))
    } else {
        match spec_read_ivec3(d, 1) {
            Ok(v) => Ok(Position { millimetres: d[0] & 0x80u8 != 0, value: v }),
            Err(e) => Err(e),
        }
    }
}

/// A velocity and an acceleration, six `i32`.
pub open spec fn spec_vel_accel(d: Seq<u8>) -> Result<(Vec3, Vec3), OtpError> {
    match spec_read_ivec3(d, 0) {
        Err(e) => Err(e),
        Ok(v) => match spec_read_ivec3(d, 12) {
            Err(e) => Err(e),
            Ok(a) => Ok((v, a)),
        },
    }
}

/// The rotation module's value that `d` holds.
pub open spec fn spec_rotation(d: Seq<u8>) -> Result<UVec3, OtpError> {
    if d.len() < 4 {
        Err(eof(0, 4 - d.len()))
    } else if d.len() < 8 {
        Err(eof(4, 8 - d.len()))
    } else if d.len() < 12 {
        Err(eof(8, 12 - d.len()))
    } else {
        Ok(UVec3 { x: be32_at(d, 0), y: be32_at(d, 4), z: be32_at(d, 8) })
    }
}

/// The reference-frame module's address that `d` holds.
pub open spec fn spec_reference_frame(d: Seq<u8>) -> Result<Address, OtpError> {
    if d.len() < 1 {
        Err(eof(0, 1 - d.len()))
    } else if d.len() < 3 {
        Err(eof(1, 3 - d.len()))
    } else if d.len() < 7 {
        Err(eof(3, 7 - d.len()))
    } else {
        Ok(Address { system: d[0], group: be16_at(d, 1), point: be32_at(d, 3) })
    }
}

fn read_ivec3(c: &mut Cursor) -> (r: Result<Vec3, OtpError>)
    requires
        old(c).pos <= old(c).buf@.len(),
    ensures
        final(c).buf@ == old(c).buf@,
        final(c).pos <= final(c).buf@.len(),
        r == spec_read_ivec3(old(c).buf@, old(c).pos as int),
        r is Ok ==> final(c).pos == old(c).pos + 12,
{
    let x = c.i32()?;
    let y = c.i32()?;
    let z = c.i32()?;
    Ok(Vec3 { x, y, z })
}

/// Decode the Position module (`0x0001`).
pub fn decode_position(data: &[u8]) -> (r: Result<Position, OtpError>)
    ensures
        r == spec_position(data@),
{
    let mut c = Cursor::new(data);
    let options = c.u8()?;
    // Bit 7: 0 => values are in µm, 1 => values are in mm.
    let value = read_ivec3(&mut c)?;
    Ok(Position { millimetres: options & 0x80 != 0, value })
}

/// Linear velocity (µm/s) and acceleration (µm/s²) from the Position
/// Velocity/Acceleration module (`0x0002`).
pub fn decode_position_vel_accel(data: &[u8]) -> (r: Result<(Vec3, Vec3), OtpError>)
    ensures
        r == spec_vel_accel(data@),
{
    let mut c = Cursor::new(data);
    let vel = read_ivec3(&mut c)?;
    let accel = read_ivec3(&mut c)?;
    Ok((vel, accel))
}

/// Decode the Rotation module (`0x0003`): unsigned millionths of a degree.
pub fn decode_rotation(data: &[u8]) -> (r: Result<UVec3, OtpError>)
    ensures
        r == spec_rotation(data@),
{
    let mut c = Cursor::new(data);
    let x = c.u32()?;
    let y = c.u32()?;
    let z = c.u32()?;
    Ok(UVec3 { x, y, z })
}

/// Rotation velocity and acceleration from the Rotation
/// Velocity/Acceleration module (`0x0004`): signed thousandths.
pub fn decode_rotation_vel_accel(data: &[u8]) -> (r: Result<(Vec3, Vec3), OtpError>)
    ensures
        r == spec_vel_accel(data@),
{
    let mut c = Cursor::new(data);
    let vel = read_ivec3(&mut c)?;
    let accel = read_ivec3(&mut c)?;
    Ok((vel, accel))
}

/// Decode the Scale module (`0x0005`): signed millionths.
pub fn decode_scale(data: &[u8]) -> (r: Result<Vec3, OtpError>)
    ensures
        r == spec_read_ivec3(data@, 0),
{
    let mut c = Cursor::new(data);
    read_ivec3(&mut c)
}

/// Decode the Reference Frame module (`0x0006`).
pub fn decode_reference_frame(data: &[u8]) -> (r: Result<Address, OtpError>)
    ensures
        r == spec_reference_frame(data@),
{
    let mut c = Cursor::new(data);
    let system = c.u8()?;
    let group = c.u16()?;
    let point = c.u32()?;
    Ok(Address { system, group, point })
}

} // verus!
