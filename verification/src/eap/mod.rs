//! EAP — EtherCAT Automation Protocol network variables (Beckhoff TwinCAT).
//!
//! Little-endian throughout. A datagram is a 2-byte EtherCAT frame header
//! (bits 0..=10 length, bits 12..=15 type; type 4 is network variables), a
//! 12-byte NV header (`u8[6]` publisher, `u16` count, `u16` cycle index,
//! `u16` reserved) and `count` variables, each an 8-byte header (`u16` id,
//! `u16` hash, `u16` length, `u16` quality) followed by `length` data bytes.
mod encode;
mod laws;
pub mod value;

pub use laws::{
    lemma_accessor_prefix, lemma_accessor_values, lemma_decode_encode_padded, lemma_decode_nv_suffix,
    lemma_decode_suffix, lemma_encoded_frame_header, lemma_frame_header_fields, word_value,
};
pub use encode::{
    lemma_decode_encode, spec_encode, spec_encode_nv, spec_encode_variable, spec_encode_variables,
};

use crate::bytes::{le16_at, le32_at, read_le16, read_le32};
use vstd::slice::slice_subrange;
use vstd::prelude::*;

verus! {

/// EtherType for EAP over raw Ethernet (`0x88A4`).
pub const ETHERTYPE: u16 = 0x88A4;

/// UDP port for EAP over IP (`34980`, i.e. `0x88A4`).
pub const UDP_PORT: u16 = 34980;

pub const FRAME_HEADER_LEN: usize = 2;

pub const NV_HEADER_LEN: usize = 12;

pub const VAR_HEADER_LEN: usize = 8;

/// The frame-header `Type` field set to network variables (4), shifted into
/// bits 12..=15.
pub const FRAME_TYPE_NV_BITS: u16 = 0x4000;

/// EtherCAT frame `Type` field values (bits 12..=15 of the frame header).
#[derive(Debug, Clone, Copy, PartialEq, Eq, Structural)]
pub enum FrameType {
    /// EtherCAT command (cyclic fieldbus). Code 1.
    EtherCatCommand,
    /// ADS. Code 2.
    Ads,
    /// Raw I/O. Code 3.
    RawIo,
    /// Network variables (publisher/subscriber). Code 4.
    NetworkVariables,
    /// Mailbox. Code 5.
    Mailbox,
    /// Any other type code.
    Other(u8),
}

/// The frame type that a 4-bit type code names.
pub open spec fn spec_frame_type(code: u8) -> FrameType {
    if code == 1 {
        FrameType::EtherCatCommand
    } else if code == 2 {
        FrameType::Ads
    } else if code == 3 {
        FrameType::RawIo
    } else if code == 4 {
        FrameType::NetworkVariables
    } else if code == 5 {
        FrameType::Mailbox
    } else {
        FrameType::Other(code)
    }
}

impl FrameType {
    fn from_code(code: u8) -> (t: FrameType)
        ensures
            t == spec_frame_type(code),
    {
        match code {
            1 => FrameType::EtherCatCommand,
            2 => FrameType::Ads,
            3 => FrameType::RawIo,
            4 => FrameType::NetworkVariables,
            5 => FrameType::Mailbox,
            other => FrameType::Other(other),
        }
    }
}

/// Errors produced while decoding an EAP datagram.
#[derive(Debug, Clone, Copy, PartialEq, Eq, Structural)]
pub enum EapError {
    /// The buffer ended before a field could be fully read.
    UnexpectedEof {
        /// Offset of the attempted read.
        offset: usize,
        /// Additional bytes required.
        needed: usize,
    },
    /// The EtherCAT frame `Type` was not network variables (4).
    NotNetworkVariables(FrameType),
    /// A variable's declared length ran past the end of the buffer.
    VariableOverrun {
        /// The variable's id.
        id: u16,
        /// Declared data length.
        len: usize,
        /// Bytes available.
        available: usize,
    },
}

/// The parsed 2-byte EtherCAT frame header.
#[derive(Debug, Clone, Copy, PartialEq, Eq, Structural)]
pub struct FrameHeader {
    /// Length of the datagram payload that follows the header.
    pub length: u16,
    /// Datagram type.
    pub frame_type: FrameType,
}

/// The frame header stored at the start of `buf`, or the error for a buffer
/// shorter than two bytes.
pub open spec fn spec_frame_header(buf: Seq<u8>) -> Result<FrameHeader, EapError> {
    if buf.len() < 2 {
        Err(EapError::UnexpectedEof { offset: 0, needed: (2 - buf.len()) as usize })
    } else {
        let word = le16_at(buf, 0);
        Ok(
            FrameHeader {
                length: word & 0x07FFu16,
                frame_type: spec_frame_type(((word >> 12u16) & 0x0Fu16) as u8),
            },
        )
    }
}

impl FrameHeader {
    /// Parse the frame header from the first two bytes of `buf`.
    pub fn parse(buf: &[u8]) -> (r: Result<Self, EapError>)
        ensures
            r == spec_frame_header(buf@),
    {
        if buf.len() < FRAME_HEADER_LEN {
            return Err(EapError::UnexpectedEof { offset: 0, needed: FRAME_HEADER_LEN - buf.len() });
        }
        let word = read_le16(buf, 0);
        Ok(
            Self {
                length: word & 0x07FF,
                frame_type: FrameType::from_code(((word >> 12u16) & 0x0F) as u8),
            },
        )
    }
}

/// A single published network variable; its data borrows from the datagram.
#[derive(Debug, Clone, Copy, PartialEq, Eq)]
pub struct NetworkVariable<'a> {
    /// Numeric variable id; the subscriber matches on this.
    pub id: u16,
    /// Opaque data-type/version hash.
    pub hash: u16,
    /// Quality flag.
    pub quality: u16,
    /// Raw variable data, little-endian.
    pub data: &'a [u8],
}

/// What a network variable holds, as plain values.
#[verifier::ext_equal]
pub struct VariableModel {
    pub id: u16,
    pub hash: u16,
    pub quality: u16,
    pub data: Seq<u8>,
}

impl<'a> View for NetworkVariable<'a> {
    type V = VariableModel;

    open spec fn view(&self) -> VariableModel {
        VariableModel { id: self.id, hash: self.hash, quality: self.quality, data: self.data@ }
    }
}

/// The `i32` that the first four bytes of `data` hold, little-endian.
pub open spec fn spec_as_i32_le(data: Seq<u8>) -> Option<i32> {
    if data.len() >= 4 {
        Some(le32_at(data, 0) as i32)
    } else {
        None
    }
}

/// The `u32` that the first four bytes of `data` hold, little-endian.
pub open spec fn spec_as_u32_le(data: Seq<u8>) -> Option<u32> {
    if data.len() >= 4 {
        Some(le32_at(data, 0))
    } else {
        None
    }
}

/// The `i16` that the first two bytes of `data` hold, little-endian.
pub open spec fn spec_as_i16_le(data: Seq<u8>) -> Option<i16> {
    if data.len() >= 2 {
        Some(le16_at(data, 0) as i16)
    } else {
        None
    }
}

/// Whether the first byte of `data` is non-zero.
pub open spec fn spec_as_bool(data: Seq<u8>) -> Option<bool> {
    if data.len() >= 1 {
        Some(data[0] != 0)
    } else {
        None
    }
}

impl<'a> NetworkVariable<'a> {
    /// Interpret the first 4 data bytes as a little-endian `i32`.
    pub fn as_i32_le(&self) -> (r: Option<i32>)
        ensures
            r == spec_as_i32_le(self.data@),
    {
        if self.data.len() >= 4 {
            Some(read_le32(self.data, 0) as i32)
        } else {
            None
        }
    }

    /// Interpret the first 4 data bytes as a little-endian `u32`.
    pub fn as_u32_le(&self) -> (r: Option<u32>)
        ensures
            r == spec_as_u32_le(self.data@),
    {
        if self.data.len() >= 4 {
            Some(read_le32(self.data, 0))
        } else {
            None
        }
    }

    /// Interpret the first 2 data bytes as a little-endian `i16`.
    pub fn as_i16_le(&self) -> (r: Option<i16>)
        ensures
            r == spec_as_i16_le(self.data@),
    {
        if self.data.len() >= 2 {
            Some(read_le16(self.data, 0) as i16)
        } else {
            None
        }
    }

    /// Interpret the first data byte as a boolean (non-zero == true).
    pub fn as_bool(&self) -> (r: Option<bool>)
        ensures
            r == spec_as_bool(self.data@),
    {
        if self.data.len() >= 1 {
            Some(self.data[0] != 0)
        } else {
            None
        }
    }
}

/// A decoded EAP network-variables publisher telegram.
#[derive(Debug, Clone, PartialEq, Eq)]
pub struct PublisherTelegram<'a> {
    /// Publisher identifier (MAC-address-shaped, 6 bytes).
    pub publisher: [u8; 6],
    /// Cycle counter / index from the publisher.
    pub cycle_index: u16,
    /// The published variables.
    pub variables: Vec<NetworkVariable<'a>>,
}

/// What a telegram holds, as plain values.
#[verifier::ext_equal]
pub struct TelegramModel {
    pub publisher: Seq<u8>,
    pub cycle_index: u16,
    pub variables: Seq<VariableModel>,
}

/// The variables of a telegram, each by its model.
pub open spec fn variables_model<'a>(vs: Seq<NetworkVariable<'a>>) -> Seq<VariableModel> {
    vs.map_values(|v: NetworkVariable<'a>| v@)
}

impl<'a> View for PublisherTelegram<'a> {
    type V = TelegramModel;

    open spec fn view(&self) -> TelegramModel {
        TelegramModel {
            publisher: self.publisher@,
            cycle_index: self.cycle_index,
            variables: variables_model(self.variables@),
        }
    }
}

/// A decode result taken by its model.
pub open spec fn telegram_result<'a>(r: Result<PublisherTelegram<'a>, EapError>) -> Result<
    TelegramModel,
    EapError,
> {
    match r {
        Ok(t) => Ok(t@),
        Err(e) => Err(e),
    }
}

/// The variable whose 8-byte header starts at `pos` of the NV payload `nv`,
/// with the offset just past its data.
pub open spec fn spec_decode_variable(nv: Seq<u8>, pos: int) -> Result<(VariableModel, int), EapError> {
    if pos + 8 > nv.len() {
        Err(EapError::UnexpectedEof { offset: pos as usize, needed: (pos + 8 - nv.len()) as usize })
    } else {
        let id = le16_at(nv, pos);
        let length = le16_at(nv, pos + 4);
        let start = pos + 8;
        let end = start + length;
        if end > nv.len() {
            Err(
                EapError::VariableOverrun {
                    id,
                    len: length as usize,
                    available: (nv.len() - start) as usize,
                },
            )
        } else {
            Ok(
                (
                    VariableModel {
                        id,
                        hash: le16_at(nv, pos + 2),
                        quality: le16_at(nv, pos + 6),
                        data: nv.subrange(start, end),
                    },
                    end,
                ),
            )
        }
    }
}

/// The `n` variables that follow one another from `pos` of `nv`.
pub open spec fn spec_decode_variables(nv: Seq<u8>, pos: int, n: nat) -> Result<
    Seq<VariableModel>,
    EapError,
>
    decreases n,
{
    if n == 0 {
        Ok(Seq::empty())
    } else {
        match spec_decode_variable(nv, pos) {
            Err(e) => Err(e),
            Ok((v, end)) => match spec_decode_variables(nv, end, (n - 1) as nat) {
                Err(e) => Err(e),
                Ok(rest) => Ok(seq![v] + rest),
            },
        }
    }
}

/// `pre` followed by what `r` holds, or the error of `r`.
pub open spec fn prepend_ok<T, E>(pre: Seq<T>, r: Result<Seq<T>, E>) -> Result<Seq<T>, E> {
    match r {
        Ok(rest) => Ok(pre + rest),
        Err(e) => Err(e),
    }
}

/// The telegram that an NV payload (the bytes after the frame header) holds.
pub open spec fn spec_decode_nv(nv: Seq<u8>) -> Result<TelegramModel, EapError> {
    if nv.len() < 12 {
        Err(EapError::UnexpectedEof { offset: 0, needed: (12 - nv.len()) as usize })
    } else {
        match spec_decode_variables(nv, 12, le16_at(nv, 6) as nat) {
            Err(e) => Err(e),
            Ok(vars) => Ok(
                TelegramModel {
                    publisher: nv.subrange(0, 6),
                    cycle_index: le16_at(nv, 8),
                    variables: vars,
                },
            ),
        }
    }
}

/// The telegram that a datagram holds, starting at its frame header.
pub open spec fn spec_decode(buf: Seq<u8>) -> Result<TelegramModel, EapError> {
    match spec_frame_header(buf) {
        Err(e) => Err(e),
        Ok(h) => if h.frame_type != FrameType::NetworkVariables {
            Err(EapError::NotNetworkVariables(h.frame_type))
        } else {
            spec_decode_nv(buf.subrange(2, buf.len() as int))
        },
    }
}

impl<'a> PublisherTelegram<'a> {
    /// Decode an EAP datagram starting at the EtherCAT frame header (the UDP
    /// payload, or the bytes after the 14-byte Ethernet header for raw L2).
    pub fn decode(buf: &'a [u8]) -> (r: Result<Self, EapError>)
        ensures
            telegram_result(r) == spec_decode(buf@),
    {
        let header = FrameHeader::parse(buf)?;
        if header.frame_type != FrameType::NetworkVariables {
            return Err(EapError::NotNetworkVariables(header.frame_type));
        }
        let nv = slice_subrange(buf, FRAME_HEADER_LEN, buf.len());
        Self::decode_nv(nv)
    }

    /// Decode the NV payload (the bytes after the 2-byte frame header).
    pub fn decode_nv(nv: &'a [u8]) -> (r: Result<Self, EapError>)
        ensures
            telegram_result(r) == spec_decode_nv(nv@),
    {
        if nv.len() < NV_HEADER_LEN {
            return Err(EapError::UnexpectedEof { offset: 0, needed: NV_HEADER_LEN - nv.len() });
        }
        let publisher: [u8; 6] = [nv[0], nv[1], nv[2], nv[3], nv[4], nv[5]];
        let count = read_le16(nv, 6);
        let cycle_index = read_le16(nv, 8);
        // nv[10..12] is reserved; the first variable starts at offset 12.
        let mut variables: Vec<NetworkVariable<'a>> = Vec::new();
        let mut pos: usize = NV_HEADER_LEN;
        let mut i: u16 = 0;
        while i < count
            invariant
                nv@.len() >= 12,
                count == le16_at(nv@, 6),
                i <= count,
                12 <= pos <= nv@.len(),
                spec_decode_variables(nv@, 12, count as nat) == prepend_ok(
                    variables_model(variables@),
                    spec_decode_variables(nv@, pos as int, (count - i) as nat),
                ),
            decreases count - i,
        {
            let ghost vars_before = variables_model(variables@);
            if nv.len() - pos < VAR_HEADER_LEN {
                return Err(
                    EapError::UnexpectedEof { offset: pos, needed: VAR_HEADER_LEN - (nv.len() - pos) },
                );
            }
            let id = read_le16(nv, pos);
            let hash = read_le16(nv, pos + 2);
            let length = read_le16(nv, pos + 4) as usize;
            let quality = read_le16(nv, pos + 6);
            let data_start = pos + VAR_HEADER_LEN;
            if length > nv.len() - data_start {
                return Err(
                    EapError::VariableOverrun { id, len: length, available: nv.len() - data_start },
                );
            }
            let data_end = data_start + length;
            let v = NetworkVariable {
                id,
                hash,
                quality,
                data: slice_subrange(nv, data_start, data_end),
            };
            variables.push(v);
            proof {
                assert(variables_model(variables@) =~= vars_before.push(v@));
                let rest = spec_decode_variables(nv@, data_end as int, (count - i - 1) as nat);
                match rest {
                    Ok(r) => {
                        assert(vars_before + (seq![v@] + r) =~= vars_before.push(v@) + r);
                    },
                    Err(e) => {},
                }
            }
            pos = data_end;
            i = i + 1;
        }
        proof {
            assert(variables_model(variables@) + Seq::<VariableModel>::empty() =~= variables_model(
                variables@,
            ));
        }
        assert(publisher@ =~= nv@.subrange(0, 6));
        Ok(Self { publisher, cycle_index, variables })
    }
}

} // verus!
