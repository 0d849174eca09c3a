//! Builders of little-endian variable data, mirroring the `as_*` accessors of
//! a network variable: what a builder writes, the matching accessor reads
//! back.
use super::{spec_as_bool, spec_as_i16_le, spec_as_i32_le, spec_as_u32_le};
use crate::bytes::{le16_bytes, le32_bytes, lemma_le16_read, lemma_le32_read};
use vstd::prelude::*;

verus! {

/// Encode an `i32` (TwinCAT `DINT`).
pub fn i32_le(v: i32) -> (b: [u8; 4])
    ensures
        b@ == le32_bytes(v as u32),
{
    let u = v as u32;
    let b = [u as u8, (u >> 8u32) as u8, (u >> 16u32) as u8, (u >> 24u32) as u8];
    assert(b@ =~= le32_bytes(v as u32));
    b
}

/// Encode a `u32` (TwinCAT `UDINT`).
pub fn u32_le(v: u32) -> (b: [u8; 4])
    ensures
        b@ == le32_bytes(v),
{
    let b = [v as u8, (v >> 8u32) as u8, (v >> 16u32) as u8, (v >> 24u32) as u8];
    assert(b@ =~= le32_bytes(v));
    b
}

/// Encode an `i16` (TwinCAT `INT`).
pub fn i16_le(v: i16) -> (b: [u8; 2])
    ensures
        b@ == le16_bytes(v as u16),
{
    let u = v as u16;
    let b = [u as u8, (u >> 8u16) as u8];
    assert(b@ =~= le16_bytes(v as u16));
    b
}

/// Encode a `bool` (TwinCAT `BOOL`): 1 for true, 0 for false.
pub fn bool_byte(v: bool) -> (b: [u8; 1])
    ensures
        b@ == seq![if v { 1u8 } else { 0u8 }],
{
    let b = [if v { 1u8 } else { 0u8 }];
    assert(b@ =~= seq![if v { 1u8 } else { 0u8 }]);
    b
}

/// `as_i32_le` reads back what `i32_le` writes.
pub proof fn lemma_i32_read_back(v: i32)
    ensures
        spec_as_i32_le(le32_bytes(v as u32)) == Some(v),
{
    let b = le32_bytes(v as u32);
    assert(b.subrange(0, 4) =~= b);
    lemma_le32_read(b, 0, v as u32);
    assert((v as u32) as i32 == v) by (bit_vector);
}

/// `as_u32_le` reads back what `u32_le` writes.
pub proof fn lemma_u32_read_back(v: u32)
    ensures
        spec_as_u32_le(le32_bytes(v)) == Some(v),
{
    let b = le32_bytes(v);
    assert(b.subrange(0, 4) =~= b);
    lemma_le32_read(b, 0, v);
}

/// `as_i16_le` reads back what `i16_le` writes.
pub proof fn lemma_i16_read_back(v: i16)
    ensures
        spec_as_i16_le(le16_bytes(v as u16)) == Some(v),
{
    let b = le16_bytes(v as u16);
    assert(b.subrange(0, 2) =~= b);
    lemma_le16_read(b, 0, v as u16);
    assert((v as u16) as i16 == v) by (bit_vector);
}

/// `as_bool` reads back what `bool_byte` writes.
pub proof fn lemma_bool_read_back(v: bool)
    ensures
        spec_as_bool(seq![if v { 1u8 } else { 0u8 }]) == Some(v),
{
}

} // verus!
