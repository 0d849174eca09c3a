//! Generic OTP PDU framing.
//!
//! Every OTP layer below the packet identifier shares the same shape: a
//! big-endian `u16` vector (in the module layer, the manufacturer id), a
//! big-endian `u16` length counting the octets that follow the length field,
//! then that many octets of body. The on-wire size of a PDU is `length + 4`.
use super::OtpError;
use crate::bytes::{be16_at, read_be16};
use vstd::prelude::*;
use vstd::slice::slice_subrange;

verus! {

/// A single PDU: its leading 16-bit tag (vector / manufacturer id) and its body.
#[derive(Debug, Clone, Copy)]
pub struct Pdu<'a> {
    /// The PDU's vector, or, for a module layer, its manufacturer id.
    pub vector: u16,
    /// The body: fixed fields for this layer followed by any child PDUs.
    pub body: &'a [u8],
}

/// The declared body length of the PDU at `pos`.
pub open spec fn spec_pdu_len(buf: Seq<u8>, pos: int) -> int {
    be16_at(buf, pos + 2) as int
}

/// Where the PDU at `pos` ends.
pub open spec fn spec_pdu_end(buf: Seq<u8>, pos: int) -> int {
    pos + 4 + spec_pdu_len(buf, pos)
}

/// The body of the PDU at `pos`.
pub open spec fn spec_pdu_body(buf: Seq<u8>, pos: int) -> Seq<u8> {
    buf.subrange(pos + 4, spec_pdu_end(buf, pos))
}

/// Whether another PDU follows at `pos`: fewer than four remaining bytes
/// are padding and end the sequence.
pub open spec fn spec_pdu_present(buf: Seq<u8>, pos: int) -> bool {
    pos + 4 <= buf.len()
}

/// The vector of the PDU at `pos`, or the overrun error when its declared
/// length runs past the buffer.
pub open spec fn spec_pdu_at(buf: Seq<u8>, pos: int) -> Result<u16, OtpError> {
    if spec_pdu_end(buf, pos) > buf.len() {
        Err(
            OtpError::PduOverrun {
                offset: pos as usize,
                len: spec_pdu_len(buf, pos) as usize,
                available: (buf.len() - (pos + 4)) as usize,
            },
        )
    } else {
        Ok(be16_at(buf, pos))
    }
}

/// A PDU as a reader hands it out: its vector and body, or an error.
pub type PduItem = Result<(u16, Seq<u8>), OtpError>;

/// What a reader at `pos` of `buf` hands out from there on, call by call:
/// each PDU in turn, then nothing once fewer than four bytes remain; an
/// overrun is the last item. A reader that is done hands out nothing.
pub open spec fn spec_pdu_items(buf: Seq<u8>, pos: int, done: bool) -> Seq<PduItem>
    decreases buf.len() - pos,
{
    if done || pos < 0 || !spec_pdu_present(buf, pos) {
        Seq::empty()
    } else {
        match spec_pdu_at(buf, pos) {
            Err(e) => seq![Err(e)],
            Ok(v) => seq![Ok((v, spec_pdu_body(buf, pos)))] + spec_pdu_items(
                buf,
                spec_pdu_end(buf, pos),
                false,
            ),
        }
    }
}

/// A result of `PduReader::next`, taken by its model.
pub open spec fn pdu_item<'a>(x: Result<Pdu<'a>, OtpError>) -> PduItem {
    match x {
        Ok(p) => Ok((p.vector, p.body@)),
        Err(e) => Err(e),
    }
}

/// Forward reader over sibling PDUs packed in a slice.
#[derive(Debug, Clone)]
pub struct PduReader<'a> {
    buf: &'a [u8],
    pos: usize,
    done: bool,
}

impl<'a> PduReader<'a> {
    /// The bytes being read.
    pub closed spec fn buffer(&self) -> Seq<u8> {
        self.buf@
    }

    /// Where the next PDU starts.
    pub closed spec fn position(&self) -> int {
        self.pos as int
    }

    /// Whether an overrun has ended the reading.
    pub closed spec fn is_done(&self) -> bool {
        self.done
    }

    /// What the reader hands out from now on, call by call.
    pub open spec fn items(&self) -> Seq<PduItem> {
        spec_pdu_items(self.buffer(), self.position(), self.is_done())
    }

    /// Create a reader over a buffer of zero or more sibling PDUs.
    pub fn new(buf: &'a [u8]) -> (r: Self)
        ensures
            r.buffer() == buf@,
            r.position() == 0,
            !r.is_done(),
            r.items() == spec_pdu_items(buf@, 0, false),
    {
        Self { buf, pos: 0, done: false }
    }

    /// The next PDU, an overrun error (which ends the reading), or `None`
    /// when fewer than four bytes remain or after an error.
    pub fn next(&mut self) -> (r: Option<Result<Pdu<'a>, OtpError>>)
        requires
            0 <= old(self).position() <= old(self).buffer().len(),
        ensures
            0 <= final(self).position() <= final(self).buffer().len(),
            final(self).buffer() == old(self).buffer(),
            r is None ==> old(self).items() == Seq::<PduItem>::empty() && final(self).items()
                == Seq::<PduItem>::empty(),
            r matches Some(x) ==> old(self).items() == seq![pdu_item(x)] + final(self).items(),
            r matches Some(Err(_)) ==> final(self).is_done(),
            old(self).is_done() || !spec_pdu_present(old(self).buffer(), old(self).position()) ==> {
                &&& r is None
                &&& final(self).position() == old(self).position()
                &&& final(self).is_done() == old(self).is_done()
            },
            !(old(self).is_done() || !spec_pdu_present(old(self).buffer(), old(self).position()))
                ==> {
                match spec_pdu_at(old(self).buffer(), old(self).position()) {
                    Err(e) => {
                        &&& r == Some(Err::<Pdu<'a>, OtpError>(e))
                        &&& final(self).is_done()
                        &&& final(self).position() == old(self).position()
                    },
                    Ok(v) => {
                        &&& r matches Some(Ok(p)) && p.vector == v && p.body@ == spec_pdu_body(
                            old(self).buffer(),
                            old(self).position(),
                        )
                        &&& !final(self).is_done()
                        &&& final(self).position() == spec_pdu_end(
                            old(self).buffer(),
                            old(self).position(),
                        )
                    },
                }
            },
    {
        // A trailing remainder smaller than a 4-byte header is treated as
        // padding and ends the reading cleanly.
        if self.done || self.buf.len() - self.pos < 4 {
            return None;
        }
        let vector = read_be16(self.buf, self.pos);
        let length = read_be16(self.buf, self.pos + 2) as usize;
        let body_start = self.pos + 4;
        if length > self.buf.len() - body_start {
            self.done = true;
            return Some(
                Err(
                    OtpError::PduOverrun {
                        offset: self.pos,
                        len: length,
                        available: self.buf.len() - body_start,
                    },
                ),
            );
        }
        let body_end = body_start + length;
        self.pos = body_end;
        Some(Ok(Pdu { vector, body: slice_subrange(self.buf, body_start, body_end) }))
    }
}

/// The first PDU of `buf`: `Ok(None)` when fewer than four bytes are there.
pub open spec fn spec_read_one(buf: Seq<u8>) -> Result<Option<u16>, OtpError> {
    if !spec_pdu_present(buf, 0) {
        Ok(None)
    } else {
        match spec_pdu_at(buf, 0) {
            Err(e) => Err(e),
            Ok(v) => Ok(Some(v)),
        }
    }
}

/// Read exactly one PDU at the start of `buf`, returning it and the
/// remaining bytes after it; `Ok(None)` when fewer than four bytes are there.
pub fn read_one(buf: &[u8]) -> (r: Result<Option<(Pdu<'_>, &[u8])>, OtpError>)
    ensures
        match r {
            Ok(None) => spec_read_one(buf@) == Ok::<Option<u16>, OtpError>(None),
            Ok(Some((p, rest))) => {
                &&& spec_read_one(buf@) == Ok::<Option<u16>, OtpError>(Some(p.vector))
                &&& p.body@ == spec_pdu_body(buf@, 0)
                &&& rest@ == buf@.subrange(spec_pdu_end(buf@, 0), buf@.len() as int)
            },
            Err(e) => spec_read_one(buf@) == Err::<Option<u16>, OtpError>(e),
        },
{
    let mut reader = PduReader::new(buf);
    match reader.next() {
        None => Ok(None),
        Some(Ok(p)) => {
            let end = 4 + p.body.len();
            let rest = slice_subrange(buf, end, buf.len());
            Ok(Some((p, rest)))
        },
        Some(Err(e)) => Err(e),
    }
}


/// An overrun is the last thing a PDU reader hands out: once `next` has given
/// an error, every later call gives `None`.
pub proof fn lemma_pdu_items_error_last(buf: Seq<u8>, pos: int, done: bool)
    ensures
        forall|i: int|
            0 <= i < spec_pdu_items(buf, pos, done).len() - 1 ==> #[trigger] spec_pdu_items(
                buf,
                pos,
                done,
            )[i] is Ok,
    decreases buf.len() - pos,
{
    if !(done || pos < 0 || !spec_pdu_present(buf, pos)) {
        if let Ok(v) = spec_pdu_at(buf, pos) {
            let end = spec_pdu_end(buf, pos);
            lemma_pdu_items_error_last(buf, end, false);
            let rest = spec_pdu_items(buf, end, false);
            let all = spec_pdu_items(buf, pos, done);
            assert forall|i: int| 0 <= i < all.len() - 1 implies #[trigger] all[i] is Ok by {
                if i > 0 {
                    assert(all[i] == rest[i - 1]);
                }
            }
        }
    }
}

} // verus!
