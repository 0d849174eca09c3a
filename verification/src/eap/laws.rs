//! Laws of the EAP decoders, stated over the bytes themselves: what the
//! frame header's fields are, what a variable's accessors read, and that
//! bytes after the declared variables (Ethernet padding) change nothing.
use super::encode::{lemma_decode_encode, spec_encode, spec_encode_nv};
use super::{
    spec_as_bool, spec_as_i16_le, spec_as_i32_le, spec_as_u32_le, spec_decode, spec_decode_nv,
    spec_decode_variable, spec_decode_variables, spec_frame_header, EapError, FrameType,
    TelegramModel, VariableModel,
};
use crate::bytes::{le16_at, le16_bytes, lemma_le16_read};
use vstd::prelude::*;

verus! {

/// The 16-bit word that the first two bytes of `buf` hold, little-endian, as
/// a number.
pub open spec fn word_value(buf: Seq<u8>) -> int {
    buf[0] as int + 256 * (buf[1] as int)
}

proof fn lemma_word_fields(b0: u8, b1: u8)
    ensures
        ({
            let w = (((b1 as u16) << 8u16) | (b0 as u16)) as u16;
            &&& w & 0x07FFu16 == (b0 as int + 256 * (b1 as int)) % 2048
            &&& ((w >> 12u16) & 0x0Fu16) as u8 == (b0 as int + 256 * (b1 as int)) / 4096
        }),
{
    assert((((((b1 as u16) << 8u16) | (b0 as u16)) as u16) & 0x07FFu16) == (b0 as u16 + 256 * (
    b1 as u16)) % 2048) by (bit_vector);
    assert(((((((b1 as u16) << 8u16) | (b0 as u16)) as u16) >> 12u16) & 0x0Fu16) as u8 == (b0
        as u16 + 256 * (b1 as u16)) / 4096) by (bit_vector);
}

/// The frame header of any buffer of two or more bytes: its length is the
/// low 11 bits of the little-endian word, and its type is named by the top
/// four bits: 1 EtherCAT command, 2 ADS, 3 raw I/O, 4 network variables,
/// 5 mailbox, any other code kept as it is.
pub proof fn lemma_frame_header_fields(buf: Seq<u8>)
    requires
        buf.len() >= 2,
    ensures
        spec_frame_header(buf) is Ok,
        ({
            let h = spec_frame_header(buf).unwrap();
            let code = word_value(buf) / 4096;
            &&& h.length == word_value(buf) % 2048
            &&& (code == 1 <==> h.frame_type == FrameType::EtherCatCommand)
            &&& (code == 2 <==> h.frame_type == FrameType::Ads)
            &&& (code == 3 <==> h.frame_type == FrameType::RawIo)
            &&& (code == 4 <==> h.frame_type == FrameType::NetworkVariables)
            &&& (code == 5 <==> h.frame_type == FrameType::Mailbox)
            &&& (code == 0 || code > 5) ==> h.frame_type == FrameType::Other(code as u8)
        }),
{
    lemma_word_fields(buf[0], buf[1]);
    assert(le16_at(buf, 0) == (((buf[1] as u16) << 8u16) | (buf[0] as u16)) as u16);
}

/// The header that `PublisherTelegram::encode` writes reads back as a
/// network-variables header whose length is the payload's length, where the
/// payload is shorter than 2048 bytes.
pub proof fn lemma_encoded_frame_header(t: TelegramModel)
    ensures
        spec_frame_header(spec_encode(t)) matches Ok(h) && h.frame_type
            == FrameType::NetworkVariables,
        spec_encode_nv(t).len() < 2048 ==> (spec_frame_header(spec_encode(t)) matches Ok(h)
            && h.length == spec_encode_nv(t).len()),
{
    let n = spec_encode_nv(t).len();
    let m = n as u16;
    let word = (0x4000u16 | (m & 0x07FFu16)) as u16;
    let buf = spec_encode(t);
    assert(buf.subrange(0, 2) =~= le16_bytes(word));
    lemma_le16_read(buf, 0, word);
    assert(((word >> 12u16) & 0x0Fu16) as u8 == 4u8) by (bit_vector)
        requires
            word == (0x4000u16 | (m & 0x07FFu16)) as u16,
    ;
    assert(m < 2048 ==> word & 0x07FFu16 == m) by (bit_vector)
        requires
            word == (0x4000u16 | (m & 0x07FFu16)) as u16,
    ;
}

/// The accessors read the first bytes of a variable's data as the number
/// they spell little-endian, whatever follows them.
pub proof fn lemma_accessor_values(d: Seq<u8>)
    ensures
        d.len() >= 4 ==> spec_as_u32_le(d) == Some((d[0] as int + 256 * (d[1] as int) + 65536 * (
        d[2] as int) + 16777216 * (d[3] as int)) as u32),
        d.len() >= 4 ==> spec_as_i32_le(d) == Some((d[0] as int + 256 * (d[1] as int) + 65536 * (
        d[2] as int) + 16777216 * (d[3] as int)) as u32 as i32),
        d.len() >= 2 ==> spec_as_i16_le(d) == Some((d[0] as int + 256 * (d[1] as int)) as u16
            as i16),
        d.len() >= 1 ==> spec_as_bool(d) == Some(d[0] != 0),
        d.len() < 4 ==> spec_as_u32_le(d) is None && spec_as_i32_le(d) is None,
        d.len() < 2 ==> spec_as_i16_le(d) is None,
        d.len() < 1 ==> spec_as_bool(d) is None,
{
    if d.len() >= 4 {
        let (b0, b1, b2, b3) = (d[0], d[1], d[2], d[3]);
        assert((((b3 as u32) << 24u32) | ((b2 as u32) << 16u32) | ((b1 as u32) << 8u32) | (b0
            as u32)) as u32 == (b0 as u32 + 256 * (b1 as u32) + 65536 * (b2 as u32) + 16777216 * (
        b3 as u32))) by (bit_vector);
    }
    if d.len() >= 2 {
        let (b0, b1) = (d[0], d[1]);
        assert((((b1 as u16) << 8u16) | (b0 as u16)) as u16 == (b0 as u16 + 256 * (b1 as u16)))
            by (bit_vector);
    }
}

/// Bytes after what an accessor reads do not change what it reads.
pub proof fn lemma_accessor_prefix(d: Seq<u8>, x: Seq<u8>)
    ensures
        d.len() >= 4 ==> spec_as_u32_le(d + x) == spec_as_u32_le(d) && spec_as_i32_le(d + x)
            == spec_as_i32_le(d),
        d.len() >= 2 ==> spec_as_i16_le(d + x) == spec_as_i16_le(d),
        d.len() >= 1 ==> spec_as_bool(d + x) == spec_as_bool(d),
{
    if d.len() >= 1 {
        assert((d + x)[0] == d[0]);
    }
    if d.len() >= 2 {
        assert((d + x)[1] == d[1]);
    }
    if d.len() >= 4 {
        assert((d + x)[2] == d[2]);
        assert((d + x)[3] == d[3]);
    }
}

proof fn lemma_le16_prefix(s: Seq<u8>, x: Seq<u8>, i: int)
    requires
        0 <= i,
        i + 2 <= s.len(),
    ensures
        le16_at(s + x, i) == le16_at(s, i),
{
    assert((s + x)[i] == s[i]);
    assert((s + x)[i + 1] == s[i + 1]);
}

proof fn lemma_variable_suffix(nv: Seq<u8>, x: Seq<u8>, pos: int)
    requires
        0 <= pos,
        spec_decode_variable(nv, pos) is Ok,
    ensures
        spec_decode_variable(nv + x, pos) == spec_decode_variable(nv, pos),
{
    lemma_le16_prefix(nv, x, pos);
    lemma_le16_prefix(nv, x, pos + 2);
    lemma_le16_prefix(nv, x, pos + 4);
    lemma_le16_prefix(nv, x, pos + 6);
    let end = spec_decode_variable(nv, pos).unwrap().1;
    assert((nv + x).subrange(pos + 8, end) =~= nv.subrange(pos + 8, end));
}

proof fn lemma_variables_suffix(nv: Seq<u8>, x: Seq<u8>, pos: int, n: nat)
    requires
        0 <= pos,
        spec_decode_variables(nv, pos, n) is Ok,
    ensures
        spec_decode_variables(nv + x, pos, n) == spec_decode_variables(nv, pos, n),
    decreases n,
{
    if n > 0 {
        lemma_variable_suffix(nv, x, pos);
        let end = spec_decode_variable(nv, pos).unwrap().1;
        lemma_variables_suffix(nv, x, end, (n - 1) as nat);
    }
}

/// Bytes after the declared variables of an NV payload, such as Ethernet
/// padding, are ignored: a payload that decodes gives the same telegram
/// with anything appended.
pub proof fn lemma_decode_nv_suffix(nv: Seq<u8>, x: Seq<u8>)
    requires
        spec_decode_nv(nv) is Ok,
    ensures
        spec_decode_nv(nv + x) == spec_decode_nv(nv),
{
    lemma_le16_prefix(nv, x, 6);
    lemma_le16_prefix(nv, x, 8);
    lemma_variables_suffix(nv, x, 12, le16_at(nv, 6) as nat);
    assert((nv + x).subrange(0, 6) =~= nv.subrange(0, 6));
}

/// Bytes after the declared variables of a datagram are ignored: a datagram
/// that decodes gives the same telegram with anything appended.
pub proof fn lemma_decode_suffix(buf: Seq<u8>, x: Seq<u8>)
    requires
        spec_decode(buf) is Ok,
    ensures
        spec_decode(buf + x) == spec_decode(buf),
{
    lemma_le16_prefix(buf, x, 0);
    let nv = buf.subrange(2, buf.len() as int);
    assert((buf + x).subrange(2, (buf + x).len() as int) =~= nv + x);
    lemma_decode_nv_suffix(nv, x);
}

/// Round trip with trailing bytes: a telegram that survives the round trip
/// decodes back from its encoding followed by any padding.
pub proof fn lemma_decode_encode_padded(t: TelegramModel, x: Seq<u8>)
    requires
        t.publisher.len() == 6,
        t.variables.len() <= 0xFFFF,
        forall|k: int|
            0 <= k < t.variables.len() ==> (#[trigger] t.variables[k]).data.len() <= 0xFFFF,
    ensures
        spec_decode(spec_encode(t) + x) == Ok::<TelegramModel, EapError>(t),
{
    lemma_decode_encode(t);
    lemma_decode_suffix(spec_encode(t), x);
}

} // verus!
