//! PosiStageNet (PSN) v2: streaming the 3D position of tracked objects on
//! stage over UDP multicast.
//!
//! The wire format is little-endian and chunk-based; see [`chunk`] for the
//! framing and [`data`] / [`info`] for the payloads. Floating-point fields
//! (IEEE-754 binary32 on the wire) are carried here as their IEEE-754 bit patterns.
pub mod chunk;
pub mod data;
pub mod info;
mod encode;
mod read;

pub use chunk::{ChunkHeader, ChunkReader};
pub use data::{DataHeader, DataPacket, Tracker};
pub use info::{InfoHeader, InfoPacket, TrackerInfo};
pub use encode::{
    chunk_bytes, chunks_bytes, chunks_complete, lemma_chunk_reader_run, lemma_decode_encode_data,
    lemma_decode_encode_info, ok_chunks, spec_encode_data, spec_encode_info, spec_packed,
};

use chunk::{spec_chunk_at, spec_chunk_data};
use data::{spec_decode_data, DataModel};
use info::{spec_decode_info, InfoModel};

use vstd::prelude::*;

verus! {

/// Default PSN UDP port (`56565`).
pub const DEFAULT_PORT: u16 = 56565;

/// Top-level chunk id for a `PSN_INFO` packet.
pub const PSN_INFO_PACKET: u16 = 0x6756;

/// Top-level chunk id for a `PSN_DATA` packet.
pub const PSN_DATA_PACKET: u16 = 0x6755;

/// A 3-component vector, each component the bit pattern of a little-endian
/// binary32 float (position/target in metres, speed in m/s, acceleration in m/s²,
/// orientation in radians).
#[derive(Debug, Clone, Copy, PartialEq, Eq, Default, Structural)]
pub struct Vec3 {
    /// Bits of the X component.
    pub x: u32,
    /// Bits of the Y component.
    pub y: u32,
    /// Bits of the Z component.
    pub z: u32,
}

impl Vec3 {
    /// Construct a vector from the bit patterns of its components.
    pub fn new(x: u32, y: u32, z: u32) -> (v: Self)
        ensures
            v == (Vec3 { x, y, z }),
    {
        Self { x, y, z }
    }
}

/// Errors produced while decoding a PSN packet.
#[derive(Debug, Clone, Copy, PartialEq, Eq, Structural)]
pub enum PsnError {
    /// The buffer ended before a field could be fully read.
    UnexpectedEof {
        /// Byte offset at which the read was attempted.
        offset: usize,
        /// Number of additional bytes that were required.
        needed: usize,
    },
    /// A chunk declared a length that runs past the end of its parent.
    ChunkOverrun {
        /// Byte offset of the chunk header.
        offset: usize,
        /// Declared data length.
        len: usize,
        /// Bytes actually available.
        available: usize,
    },
    /// The top-level chunk id was neither `PSN_INFO` nor `PSN_DATA`.
    UnknownRootChunk(u16),
    /// A string field was not valid UTF-8.
    InvalidUtf8 {
        /// Byte offset of the string field.
        offset: usize,
    },
}

} // verus!

verus! {

/// A decoded PSN packet: either tracker data or system/tracker info.
#[derive(Debug, Clone, PartialEq)]
pub enum Packet {
    /// A `PSN_DATA` packet carrying live tracker transforms.
    Data(DataPacket),
    /// A `PSN_INFO` packet carrying the system name and tracker names.
    Info(InfoPacket),
}

/// What a packet holds, as plain values.
pub enum PacketModel {
    Data(DataModel),
    Info(InfoModel),
}

impl View for Packet {
    type V = PacketModel;

    open spec fn view(&self) -> PacketModel {
        match self {
            Packet::Data(d) => PacketModel::Data(d@),
            Packet::Info(i) => PacketModel::Info(i@),
        }
    }
}

/// A decode result taken by its model.
pub open spec fn packet_result(r: Result<Packet, PsnError>) -> Result<PacketModel, PsnError> {
    match r {
        Ok(p) => Ok(p@),
        Err(e) => Err(e),
    }
}

/// The packet that a datagram holds: its first chunk, dispatched on the
/// chunk's id.
pub open spec fn spec_decode_packet(buf: Seq<u8>) -> Result<PacketModel, PsnError> {
    if buf.len() == 0 {
        Err(PsnError::UnexpectedEof { offset: 0, needed: 4 })
    } else {
        match spec_chunk_at(buf, 0, 0) {
            Err(e) => Err(e),
            Ok(h) => if h.id == 0x6755 {
                match spec_decode_data(spec_chunk_data(buf, 0)) {
                    Ok(d) => Ok(PacketModel::Data(d)),
                    Err(e) => Err(e),
                }
            } else if h.id == 0x6756 {
                match spec_decode_info(spec_chunk_data(buf, 0)) {
                    Ok(i) => Ok(PacketModel::Info(i)),
                    Err(e) => Err(e),
                }
            } else {
                Err(PsnError::UnknownRootChunk(h.id))
            },
        }
    }
}

impl Packet {
    /// Decode a single PSN datagram, dispatching on the root chunk id.
    pub fn decode(buf: &[u8]) -> (r: Result<Self, PsnError>)
        ensures
            packet_result(r) == spec_decode_packet(buf@),
    {
        let mut reader = ChunkReader::new(buf);
        let chunk = match reader.next() {
            None => return Err(PsnError::UnexpectedEof { offset: 0, needed: 4 }),
            Some(c) => c?,
        };
        match chunk.header.id {
            PSN_DATA_PACKET => Ok(Packet::Data(DataPacket::decode(chunk.data)?)),
            PSN_INFO_PACKET => Ok(Packet::Info(InfoPacket::decode(chunk.data)?)),
            other => Err(PsnError::UnknownRootChunk(other)),
        }
    }
}

} // verus!
