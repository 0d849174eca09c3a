//! OTP — Object Transform Protocol (ANSI E1.59): streaming object transform
//! data (position, rotation, scale, velocity, acceleration) over UDP
//! multicast. Layered like ACN/sACN and big-endian. Module values are kept as
//! the scaled integers that travel on the wire.
pub mod advertisement;
mod encode;
pub mod modules;
pub mod pdu;
mod read;
mod roundtrip;
pub mod transform;

pub use advertisement::AdvertisementMessage;
pub use encode::spec_encode_packet;
pub use roundtrip::{
    lemma_decode_encode, lemma_decode_encode_advertisement, lemma_name_field_read_back,
    lemma_pdu_reader_run, lemma_point_vendor_module_skipped, lemma_vendor_module_skipped, message_fits, name_fits, ok_pdus, packet_fits, pdus_bytes, point_fits, point_or_none,
};
pub use modules::Address;
pub use transform::{Point, TransformMessage};

use advertisement::{spec_advertisement, AdvertisementModel};
use crate::bytes::{be16_at, be32_at};
use pdu::{read_one, spec_pdu_body, spec_read_one};
use read::{eof, fixed_name, spec_fixed_name, Cursor};
use transform::{spec_transform, TransformModel};
use vstd::prelude::*;
use vstd::slice::slice_subrange;

verus! {

/// OTP UDP port (`5568`, shared with sACN).
pub const PORT: u16 = 5568;

/// Errors produced while decoding an OTP packet.
#[derive(Debug, Clone, Copy, PartialEq, Eq, Structural)]
pub enum OtpError {
    /// The buffer ended before a field could be fully read.
    UnexpectedEof {
        /// Offset of the attempted read.
        offset: usize,
        /// Additional bytes required.
        needed: usize,
    },
    /// A PDU declared a length running past its parent.
    PduOverrun {
        /// Offset of the PDU header.
        offset: usize,
        /// Declared length.
        len: usize,
        /// Bytes available.
        available: usize,
    },
    /// The 12-byte packet identifier did not match.
    BadIdentifier,
    /// The base-layer vector was neither transform nor advertisement.
    UnknownVector(u16),
    /// The packet was too short to contain even the base-layer header.
    TooShort(usize),
}

} // verus!

verus! {

/// The 12-octet OTP packet identifier: `"OTP-E1.59"` and three NUL bytes.
pub const PACKET_IDENT: [u8; 12] = [0x4F, 0x54, 0x50, 0x2D, 0x45, 0x31, 0x2E, 0x35, 0x39, 0, 0, 0];

/// The packet identifier as a sequence.
pub open spec fn spec_packet_ident() -> Seq<u8> {
    seq![0x4Fu8, 0x54u8, 0x50u8, 0x2Du8, 0x45u8, 0x31u8, 0x2Eu8, 0x35u8, 0x39u8, 0u8, 0u8, 0u8]
}

/// Vector (base layer) selecting a transform message.
pub const VECTOR_TRANSFORM_MESSAGE: u16 = 0x0001;

/// Vector (base layer) selecting an advertisement message.
pub const VECTOR_ADVERTISEMENT_MESSAGE: u16 = 0x0002;

pub const COMPONENT_NAME_LEN: usize = 32;

/// The OTP base-layer header, shared by every packet.
#[derive(Debug, Clone, PartialEq, Eq)]
pub struct OtpLayer {
    /// Component identifier (a 16-octet UUID), identifying the sender.
    pub cid: [u8; 16],
    /// Folio number; increments per logical message (may span pages).
    pub folio: u32,
    /// Current page within the folio.
    pub page: u16,
    /// Last page index of the folio (0-based, so single-page == 0).
    pub last_page: u16,
    /// Sender's component name.
    pub component_name: String,
}

/// What a base layer holds, as plain values.
#[verifier::ext_equal]
pub struct LayerModel {
    pub cid: Seq<u8>,
    pub folio: u32,
    pub page: u16,
    pub last_page: u16,
    pub component_name: Seq<char>,
}

impl View for OtpLayer {
    type V = LayerModel;

    open spec fn view(&self) -> LayerModel {
        LayerModel {
            cid: self.cid@,
            folio: self.folio,
            page: self.page,
            last_page: self.last_page,
            component_name: self.component_name@,
        }
    }
}

/// The body of an OTP packet, selected by the base-layer vector.
#[derive(Debug, Clone, PartialEq)]
pub enum Message {
    /// A transform message (live point transforms).
    Transform(TransformMessage),
    /// An advertisement message (discovery).
    Advertisement(AdvertisementMessage),
}

/// What a message holds, as plain values.
#[verifier::ext_equal]
pub enum MessageModel {
    Transform(TransformModel),
    Advertisement(AdvertisementModel),
}

impl View for Message {
    type V = MessageModel;

    open spec fn view(&self) -> MessageModel {
        match self {
            Message::Transform(t) => MessageModel::Transform(t@),
            Message::Advertisement(a) => MessageModel::Advertisement(a@),
        }
    }
}

/// A fully decoded OTP packet: base-layer metadata plus a message.
#[derive(Debug, Clone, PartialEq)]
pub struct Packet {
    /// Base-layer header (sender identity, paging).
    pub layer: OtpLayer,
    /// The decoded message.
    pub message: Message,
}

/// What a packet holds, as plain values.
#[verifier::ext_equal]
pub struct PacketModel {
    pub layer: LayerModel,
    pub message: MessageModel,
}

impl View for Packet {
    type V = PacketModel;

    open spec fn view(&self) -> PacketModel {
        PacketModel { layer: self.layer@, message: self.message@ }
    }
}

/// A decode result taken by its model.
pub open spec fn packet_result(r: Result<Packet, OtpError>) -> Result<PacketModel, OtpError> {
    match r {
        Ok(p) => Ok(p@),
        Err(e) => Err(e),
    }
}

/// The base-layer fields (63 octets) at the start of the base PDU's body.
#[verifier::opaque]
pub open spec fn spec_base_fields(body: Seq<u8>) -> Result<LayerModel, OtpError> {
    if body.len() < 1 {
        Err(eof(0, 1 - body.len()))
    } else if body.len() < 2 {
        Err(eof(1, 1))
    } else if body.len() < 18 {
        Err(eof(2, 18 - body.len()))
    } else if body.len() < 22 {
        Err(eof(18, 22 - body.len()))
    } else if body.len() < 24 {
        Err(eof(22, 24 - body.len()))
    } else if body.len() < 26 {
        Err(eof(24, 26 - body.len()))
    } else if body.len() < 27 {
        Err(eof(26, 1))
    } else if body.len() < 31 {
        Err(eof(27, 31 - body.len()))
    } else if body.len() < 63 {
        Err(eof(31, 63 - body.len()))
    } else {
        Ok(
            LayerModel {
                cid: body.subrange(2, 18),
                folio: be32_at(body, 18),
                page: be16_at(body, 22),
                last_page: be16_at(body, 24),
                component_name: spec_fixed_name(body.subrange(31, 63)),
            },
        )
    }
}

/// The message that the message sub-layer (the PDU at the start of `sub`)
/// holds, for base vector `base_vector`; `total` is the datagram length.
#[verifier::opaque]
pub open spec fn spec_message(base_vector: u16, sub: Seq<u8>, total: int) -> Result<
    MessageModel,
    OtpError,
> {
    match spec_read_one(sub) {
        Err(e) => Err(e),
        Ok(None) => Err(OtpError::TooShort(total as usize)),
        Ok(Some(v)) => if base_vector == 1 {
            match spec_transform(spec_pdu_body(sub, 0)) {
                Ok(t) => Ok(MessageModel::Transform(t)),
                Err(e) => Err(e),
            }
        } else if base_vector == 2 {
            match spec_advertisement(v, spec_pdu_body(sub, 0)) {
                Ok(a) => Ok(MessageModel::Advertisement(a)),
                Err(e) => Err(e),
            }
        } else {
            Err(OtpError::UnknownVector(base_vector))
        },
    }
}

/// The packet that a datagram holds.
pub open spec fn spec_decode_packet(buf: Seq<u8>) -> Result<PacketModel, OtpError> {
    if buf.len() < 12 {
        Err(OtpError::TooShort(buf.len() as usize))
    } else if buf.subrange(0, 12) != spec_packet_ident() {
        Err(OtpError::BadIdentifier)
    } else {
        let rest = buf.subrange(12, buf.len() as int);
        match spec_read_one(rest) {
            Err(e) => Err(e),
            Ok(None) => Err(OtpError::TooShort(buf.len() as usize)),
            Ok(Some(base_vector)) => {
                let body = spec_pdu_body(rest, 0);
                match spec_base_fields(body) {
                    Err(e) => Err(e),
                    Ok(layer) => match spec_message(
                        base_vector,
                        body.subrange(63, body.len() as int),
                        buf.len() as int,
                    ) {
                        Err(e) => Err(e),
                        Ok(message) => Ok(PacketModel { layer, message }),
                    },
                }
            },
        }
    }
}

fn has_packet_ident(buf: &[u8]) -> (b: bool)
    requires
        buf@.len() >= 12,
    ensures
        b == (buf@.subrange(0, 12) == spec_packet_ident()),
{
    let ident = PACKET_IDENT;
    assert(ident@ =~= spec_packet_ident());
    let mut i: usize = 0;
    while i < 12
        invariant
            i <= 12,
            buf@.len() >= 12,
            ident@ == spec_packet_ident(),
            buf@.subrange(0, i as int) == spec_packet_ident().subrange(0, i as int),
        decreases 12 - i,
    {
        if buf[i] != ident[i] {
            assert(buf@.subrange(0, 12)[i as int] != spec_packet_ident()[i as int]);
            return false;
        }
        i = i + 1;
        assert(buf@.subrange(0, i as int) =~= spec_packet_ident().subrange(0, i as int));
    }
    assert(buf@.subrange(0, 12) =~= spec_packet_ident());
    true
}

impl Packet {
    /// Decode a single OTP datagram.
    pub fn decode(buf: &[u8]) -> (r: Result<Self, OtpError>)
        ensures
            packet_result(r) == spec_decode_packet(buf@),
    {
        reveal(spec_base_fields);
        reveal(spec_message);
        if buf.len() < 12 {
            return Err(OtpError::TooShort(buf.len()));
        }
        if !has_packet_ident(buf) {
            return Err(OtpError::BadIdentifier);
        }
        // The base layer is a PDU starting right after the identifier. Its
        // body holds the base-layer fields followed by the message sub-layer.
        let rest = slice_subrange(buf, 12, buf.len());
        let base = match read_one(rest)? {
            Some((p, _)) => p,
            None => return Err(OtpError::TooShort(buf.len())),
        };
        let base_vector = base.vector;
        let body = base.body;
        let mut c = Cursor::new(body);
        c.skip(1)?;  // footer options
        c.skip(1)?;  // footer length
        let cid_bytes = c.take(16)?;
        let folio = c.u32()?;
        let page = c.u16()?;
        let last_page = c.u16()?;
        c.skip(1)?;  // options
        c.skip(4)?;  // reserved
        let component_name = fixed_name(c.take(COMPONENT_NAME_LEN)?);
        let cid: [u8; 16] = [
            cid_bytes[0],
            cid_bytes[1],
            cid_bytes[2],
            cid_bytes[3],
            cid_bytes[4],
            cid_bytes[5],
            cid_bytes[6],
            cid_bytes[7],
            cid_bytes[8],
            cid_bytes[9],
            cid_bytes[10],
            cid_bytes[11],
            cid_bytes[12],
            cid_bytes[13],
            cid_bytes[14],
            cid_bytes[15],
        ];
        assert(cid@ =~= body@.subrange(2, 18));
        let layer = OtpLayer { cid, folio, page, last_page, component_name };
        let sub_buf = slice_subrange(body, c.position(), body.len());
        let sub = match read_one(sub_buf)? {
            Some((p, _)) => p,
            None => return Err(OtpError::TooShort(buf.len())),
        };
        let message = match base_vector {
            VECTOR_TRANSFORM_MESSAGE => Message::Transform(TransformMessage::decode(sub.body)?),
            VECTOR_ADVERTISEMENT_MESSAGE => Message::Advertisement(
                AdvertisementMessage::decode(sub.vector, sub.body)?,
            ),
            other => return Err(OtpError::UnknownVector(other)),
        };
        assert(layer@ == spec_base_fields(body@).unwrap());
        Ok(Packet { layer, message })
    }
}

} // verus!
