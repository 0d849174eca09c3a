//! Advertisement-message layer: discovery of modules, point names, and
//! systems.
//!
//! An advertisement nests two PDUs below the OTP base layer:
//!
//! ```text
//! OTP Base Layer            (octets 0-78, base Vector 12-13 = 0x0002)
//!   OTP Advertisement Layer (octets 79-86)
//!     Vector (79-80)  = 0x0001 Module / 0x0002 Name / 0x0003 System  ← the KIND
//!     Length (81-82)
//!     Reserved (83-86, 4 octets)
//!     Inner ..._LIST Layer  (octets 87+)
//!       Vector (87-88) = 0x0001 (the *_LIST vector; same value for all kinds)
//!       Length (89-90)
//!       [Options (1 octet, bit7 = Request/Response)  — Name & System only]
//!       Reserved (4 octets)
//!       entries:
//!         Module:  {u16 manufacturer, u16 module}        (4 octets each)
//!         Name:    {u8 sys, u16 grp, u32 pt, name(32)}   (39 octets each)
//!         System:  {u8 system}                           (1 octet each)
//! ```
use super::modules::Address;
use super::pdu::{read_one, spec_pdu_body, spec_read_one};
use super::read::{eof, fixed_name, spec_fixed_name, Cursor};
use super::OtpError;
use crate::bytes::{be16_at, be32_at};
use vstd::prelude::*;
use vstd::slice::slice_subrange;

verus! {

/// Vector value (in the base layer) selecting the advertisement message.
pub const VECTOR_ADVERTISEMENT: u16 = 0x0002;

/// Advertisement-layer vector selecting a module advertisement.
pub const VECTOR_ADV_MODULE: u16 = 0x0001;

/// Advertisement-layer vector selecting a name advertisement.
pub const VECTOR_ADV_NAME: u16 = 0x0002;

/// Advertisement-layer vector selecting a system advertisement.
pub const VECTOR_ADV_SYSTEM: u16 = 0x0003;

/// Inner advertisement-list layer vector, the same for every kind.
pub const VECTOR_LIST: u16 = 0x0001;

pub const NAME_FIELD_LEN: usize = 32;

/// A manufacturer + module pair, as advertised in a module advertisement.
#[derive(Debug, Clone, Copy, PartialEq, Eq, Structural)]
pub struct ModuleIdent {
    /// Manufacturer id (ESTA = `0x0000`).
    pub manufacturer: u16,
    /// Module number.
    pub module: u16,
}

/// A point's advertised name.
#[derive(Debug, Clone, PartialEq, Eq)]
pub struct PointName {
    /// Point address.
    pub address: Address,
    /// Human-readable name (NUL-trimmed UTF-8).
    pub name: String,
}

/// What a point-name entry holds, as plain values.
#[verifier::ext_equal]
pub struct PointNameModel {
    pub address: Address,
    pub name: Seq<char>,
}

impl View for PointName {
    type V = PointNameModel;

    open spec fn view(&self) -> PointNameModel {
        PointNameModel { address: self.address, name: self.name@ }
    }
}

/// A decoded advertisement message.
#[derive(Debug, Clone, PartialEq)]
pub enum AdvertisementMessage {
    /// List of supported modules.
    Module(Vec<ModuleIdent>),
    /// Point-name advertisement.
    Name {
        /// `true` if this is a response (vs. a request).
        is_response: bool,
        /// Advertised point names.
        names: Vec<PointName>,
    },
    /// List of advertised system numbers.
    System {
        /// `true` if this is a response (vs. a request).
        is_response: bool,
        /// Advertised system numbers.
        systems: Vec<u8>,
    },
    /// An advertisement layer that is not decoded; carries its raw vector.
    Unknown(u16),
}

/// What an advertisement holds, as plain values.
#[verifier::ext_equal]
pub enum AdvertisementModel {
    Module(Seq<ModuleIdent>),
    Name { is_response: bool, names: Seq<PointNameModel> },
    System { is_response: bool, systems: Seq<u8> },
    Unknown(u16),
}

/// The entries of a name list, each by its model.
pub open spec fn point_names_model(ns: Seq<PointName>) -> Seq<PointNameModel> {
    ns.map_values(|n: PointName| n@)
}

impl View for AdvertisementMessage {
    type V = AdvertisementModel;

    open spec fn view(&self) -> AdvertisementModel {
        match self {
            AdvertisementMessage::Module(m) => AdvertisementModel::Module(m@),
            AdvertisementMessage::Name { is_response, names } => AdvertisementModel::Name {
                is_response: *is_response,
                names: point_names_model(names@),
            },
            AdvertisementMessage::System { is_response, systems } => AdvertisementModel::System {
                is_response: *is_response,
                systems: systems@,
            },
            AdvertisementMessage::Unknown(v) => AdvertisementModel::Unknown(*v),
        }
    }
}

/// A decode result taken by its model.
pub open spec fn advertisement_result(r: Result<AdvertisementMessage, OtpError>) -> Result<
    AdvertisementModel,
    OtpError,
> {
    match r {
        Ok(a) => Ok(a@),
        Err(e) => Err(e),
    }
}

/// The 4-octet module entries of `b` from `pos` on; a shorter remainder is
/// ignored.
pub open spec fn spec_module_entries(b: Seq<u8>, pos: int) -> Seq<ModuleIdent>
    decreases b.len() - pos,
{
    if pos < 0 || pos + 4 > b.len() {
        Seq::empty()
    } else {
        seq![ModuleIdent { manufacturer: be16_at(b, pos), module: be16_at(b, pos + 2) }]
            + spec_module_entries(b, pos + 4)
    }
}

/// The 39-octet name entries of `b` from `pos` on; a shorter remainder is
/// ignored.
pub open spec fn spec_name_entries(b: Seq<u8>, pos: int) -> Seq<PointNameModel>
    decreases b.len() - pos,
{
    if pos < 0 || pos + 39 > b.len() {
        Seq::empty()
    } else {
        seq![
            PointNameModel {
                address: Address { system: b[pos], group: be16_at(b, pos + 1), point: be32_at(b, pos + 3) },
                name: spec_fixed_name(b.subrange(pos + 7, pos + 39)),
            },
        ] + spec_name_entries(b, pos + 39)
    }
}

/// A module advertisement list body: reserved(4), then entries.
pub open spec fn spec_decode_module(b: Seq<u8>) -> Result<AdvertisementModel, OtpError> {
    if b.len() < 4 {
        Err(eof(0, 4 - b.len()))
    } else {
        Ok(AdvertisementModel::Module(spec_module_entries(b, 4)))
    }
}

/// A name advertisement list body: options(1), reserved(4), then entries.
pub open spec fn spec_decode_name(b: Seq<u8>) -> Result<AdvertisementModel, OtpError> {
    if b.len() < 1 {
        Err(eof(0, 1 - b.len()))
    } else if b.len() < 5 {
        Err(eof(1, 5 - b.len()))
    } else {
        Ok(
            AdvertisementModel::Name {
                is_response: b[0] & 0x80u8 != 0,
                names: spec_name_entries(b, 5),
            },
        )
    }
}

/// A system advertisement list body: options(1), reserved(4), then one
/// octet per system.
pub open spec fn spec_decode_system(b: Seq<u8>) -> Result<AdvertisementModel, OtpError> {
    if b.len() < 1 {
        Err(eof(0, 1 - b.len()))
    } else if b.len() < 5 {
        Err(eof(1, 5 - b.len()))
    } else {
        Ok(
            AdvertisementModel::System {
                is_response: b[0] & 0x80u8 != 0,
                systems: b.subrange(5, b.len() as int),
            },
        )
    }
}

/// The advertisement of kind `kind` whose advertisement-layer body is `body`.
pub open spec fn spec_advertisement(kind: u16, body: Seq<u8>) -> Result<
    AdvertisementModel,
    OtpError,
> {
    if body.len() < 4 {
        Err(eof(0, 4 - body.len()))
    } else {
        let rest = body.subrange(4, body.len() as int);
        match spec_read_one(rest) {
            Err(e) => Err(e),
            Ok(None) => Ok(AdvertisementModel::Unknown(kind)),
            Ok(Some(v)) => if v != 1 {
                Ok(AdvertisementModel::Unknown(kind))
            } else {
                let inner = spec_pdu_body(rest, 0);
                if kind == 1 {
                    spec_decode_module(inner)
                } else if kind == 2 {
                    spec_decode_name(inner)
                } else if kind == 3 {
                    spec_decode_system(inner)
                } else {
                    Ok(AdvertisementModel::Unknown(kind))
                }
            },
        }
    }
}

impl AdvertisementMessage {
    /// Decode an OTP advertisement layer: `kind` is the layer's vector
    /// (module / name / system), `body` the layer's body (reserved(4), then
    /// the inner list PDU).
    pub fn decode(kind: u16, body: &[u8]) -> (r: Result<Self, OtpError>)
        ensures
            advertisement_result(r) == spec_advertisement(kind, body@),
    {
        let mut c = Cursor::new(body);
        c.skip(4)?;  // advertisement-layer reserved (octets 83-86)
        let rest = slice_subrange(body, c.position(), body.len());
        let inner = match read_one(rest)? {
            Some((pdu, _)) => pdu,
            None => return Ok(AdvertisementMessage::Unknown(kind)),
        };
        // The inner list vector must be VECTOR_LIST for every kind; anything
        // else is treated as undecodable.
        if inner.vector != VECTOR_LIST {
            return Ok(AdvertisementMessage::Unknown(kind));
        }
        match kind {
            VECTOR_ADV_MODULE => Self::decode_module(inner.body),
            VECTOR_ADV_NAME => Self::decode_name(inner.body),
            VECTOR_ADV_SYSTEM => Self::decode_system(inner.body),
            other => Ok(AdvertisementMessage::Unknown(other)),
        }
    }

    fn decode_module(body: &[u8]) -> (r: Result<Self, OtpError>)
        ensures
            advertisement_result(r) == spec_decode_module(body@),
    {
        let mut c = Cursor::new(body);
        c.skip(4)?;  // reserved (no options octet for Module)
        let mut mods: Vec<ModuleIdent> = Vec::new();
        while body.len() - c.position() >= 4
            invariant
                c.buf@ == body@,
                4 <= c.pos <= body@.len(),
                spec_module_entries(body@, 4) == mods@ + spec_module_entries(body@, c.pos as int),
            decreases body@.len() - c.pos,
        {
            let ghost before = mods@;
            let ghost pos = c.pos as int;
            let manufacturer = c.u16()?;
            let module = c.u16()?;
            let m = ModuleIdent { manufacturer, module };
            mods.push(m);
            proof {
                assert(spec_module_entries(body@, pos) == seq![m] + spec_module_entries(
                    body@,
                    pos + 4,
                ));
                assert(before + (seq![m] + spec_module_entries(body@, pos + 4)) =~= mods@
                    + spec_module_entries(body@, pos + 4));
            }
        }
        assert(mods@ + spec_module_entries(body@, c.pos as int) =~= mods@);
        Ok(AdvertisementMessage::Module(mods))
    }

    fn decode_name(body: &[u8]) -> (r: Result<Self, OtpError>)
        ensures
            advertisement_result(r) == spec_decode_name(body@),
    {
        let mut c = Cursor::new(body);
        let options = c.u8()?;
        c.skip(4)?;  // reserved
        let is_response = options & 0x80 != 0;
        let entry_len: usize = 1 + 2 + 4 + NAME_FIELD_LEN;  // 39
        let mut names: Vec<PointName> = Vec::new();
        while body.len() - c.position() >= entry_len
            invariant
                entry_len == 39,
                c.buf@ == body@,
                5 <= c.pos <= body@.len(),
                spec_name_entries(body@, 5) == point_names_model(names@) + spec_name_entries(
                    body@,
                    c.pos as int,
                ),
            decreases body@.len() - c.pos,
        {
            let ghost before = point_names_model(names@);
            let ghost pos = c.pos as int;
            let system = c.u8()?;
            let group = c.u16()?;
            let point = c.u32()?;
            let name = fixed_name(c.take(NAME_FIELD_LEN)?);
            let entry = PointName { address: Address { system, group, point }, name };
            names.push(entry);
            proof {
                assert(spec_name_entries(body@, pos) == seq![entry@] + spec_name_entries(
                    body@,
                    pos + 39,
                ));
                assert(point_names_model(names@) =~= before.push(entry@));
                assert(before + (seq![entry@] + spec_name_entries(body@, pos + 39)) =~= before.push(
                    entry@,
                ) + spec_name_entries(body@, pos + 39));
            }
        }
        assert(point_names_model(names@) + spec_name_entries(body@, c.pos as int)
            =~= point_names_model(names@));
        Ok(AdvertisementMessage::Name { is_response, names })
    }

    fn decode_system(body: &[u8]) -> (r: Result<Self, OtpError>)
        ensures
            advertisement_result(r) == spec_decode_system(body@),
    {
        let mut c = Cursor::new(body);
        let options = c.u8()?;
        c.skip(4)?;  // reserved
        let is_response = options & 0x80 != 0;
        let mut systems: Vec<u8> = Vec::new();
        while c.position() < body.len()
            invariant
                c.buf@ == body@,
                5 <= c.pos <= body@.len(),
                systems@ == body@.subrange(5, c.pos as int),
            decreases body@.len() - c.pos,
        {
            let s = c.u8()?;
            systems.push(s);
            assert(systems@ =~= body@.subrange(5, c.pos as int));
        }
        Ok(AdvertisementMessage::System { is_response, systems })
    }
}

} // verus!
