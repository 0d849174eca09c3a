//! PSN chunk framing.
//!
//! Every PSN packet is a tree of chunks. Each chunk begins with a 4-byte,
//! little-endian header: `u16` id, then a `u16` whose bits 0..=14 are the data
//! length and whose bit 15 says the data is itself a sequence of chunks. The
//! next chunk begins right after the previous chunk's data.
use super::PsnError;
use crate::bytes::{le16_at, read_le16};
use vstd::prelude::*;
use vstd::slice::slice_subrange;

verus! {

/// A parsed 4-byte chunk header.
#[derive(Debug, Clone, Copy, PartialEq, Eq, Structural)]
pub struct ChunkHeader {
    /// Chunk identifier; its meaning depends on where the chunk stands.
    pub id: u16,
    /// Length in bytes of this chunk's data (excluding the 4-byte header).
    pub data_len: u16,
    /// Whether the data is itself a sequence of chunks.
    pub has_subchunks: bool,
}

/// The chunk header stored at `s[pos..pos + 4]`.
pub open spec fn spec_chunk_header(s: Seq<u8>, pos: int) -> ChunkHeader {
    let packed = le16_at(s, pos + 2);
    ChunkHeader {
        id: le16_at(s, pos),
        data_len: packed & 0x7FFFu16,
        has_subchunks: packed & 0x8000u16 != 0,
    }
}

/// The header of the chunk that starts at `pos` of `buf`, or the error that
/// reading it gives; offsets in errors are `base + pos`.
pub open spec fn spec_chunk_at(buf: Seq<u8>, base: int, pos: int) -> Result<ChunkHeader, PsnError> {
    if buf.len() - pos < 4 {
        Err(
            PsnError::UnexpectedEof {
                offset: (base + pos) as usize,
                needed: (4 - (buf.len() - pos)) as usize,
            },
        )
    } else if pos + 4 + spec_chunk_header(buf, pos).data_len > buf.len() {
        Err(
            PsnError::ChunkOverrun {
                offset: (base + pos) as usize,
                len: spec_chunk_header(buf, pos).data_len as usize,
                available: (buf.len() - (pos + 4)) as usize,
            },
        )
    } else {
        Ok(spec_chunk_header(buf, pos))
    }
}

/// Where the chunk that starts at `pos` ends.
pub open spec fn spec_chunk_end(buf: Seq<u8>, pos: int) -> int {
    pos + 4 + spec_chunk_header(buf, pos).data_len
}

/// The data of the chunk that starts at `pos`.
pub open spec fn spec_chunk_data(buf: Seq<u8>, pos: int) -> Seq<u8> {
    buf.subrange(pos + 4, spec_chunk_end(buf, pos))
}

impl ChunkHeader {
    fn parse(buf: &[u8], offset: usize) -> (r: Result<Self, PsnError>)
        ensures
            buf@.len() < 4 ==> r == Err::<ChunkHeader, PsnError>(
                PsnError::UnexpectedEof { offset, needed: (4 - buf@.len()) as usize },
            ),
            buf@.len() >= 4 ==> r == Ok::<ChunkHeader, PsnError>(spec_chunk_header(buf@, 0)),
    {
        if buf.len() < 4 {
            return Err(PsnError::UnexpectedEof { offset, needed: 4 - buf.len() });
        }
        let id = read_le16(buf, 0);
        let packed = read_le16(buf, 2);
        Ok(Self { id, data_len: packed & 0x7FFF, has_subchunks: packed & 0x8000 != 0 })
    }
}

/// A chunk as a reader hands it out: its header and data, or an error.
pub type ChunkItem = Result<(ChunkHeader, Seq<u8>), PsnError>;

/// What a reader at `pos` of `buf`, with error offsets shifted by `base`,
/// hands out from there on, call by call: each chunk in turn until the end
/// of the buffer; a malformed chunk is the last item. A reader that is done
/// hands out nothing.
pub open spec fn spec_chunk_items(buf: Seq<u8>, base: int, pos: int, done: bool) -> Seq<ChunkItem>
    decreases buf.len() - pos,
{
    if done || pos < 0 || pos >= buf.len() {
        Seq::empty()
    } else {
        match spec_chunk_at(buf, base, pos) {
            Err(e) => seq![Err(e)],
            Ok(h) => seq![Ok((h, spec_chunk_data(buf, pos)))] + spec_chunk_items(
                buf,
                base,
                spec_chunk_end(buf, pos),
                false,
            ),
        }
    }
}

/// A result of `ChunkReader::next`, taken by its model.
pub open spec fn chunk_item<'a>(x: Result<Chunk<'a>, PsnError>) -> ChunkItem {
    match x {
        Ok(c) => Ok((c.header, c.data@)),
        Err(e) => Err(e),
    }
}

/// A chunk: its header plus its data.
#[derive(Debug, Clone, Copy, PartialEq, Eq)]
pub struct Chunk<'a> {
    /// The parsed header.
    pub header: ChunkHeader,
    /// The chunk's data bytes (length == `header.data_len`).
    pub data: &'a [u8],
}

impl<'a> Chunk<'a> {
    /// A reader over this chunk's sub-chunks. Meaningful only when
    /// `has_subchunks` is set, but always safe to call.
    pub fn children(&self) -> (r: ChunkReader<'a>)
        ensures
            r.wf(),
            r.buffer() == self.data@,
            r.base() == 0,
            r.position() == 0,
            !r.is_done(),
            r.items() == spec_chunk_items(self.data@, 0, 0, false),
    {
        ChunkReader::new(self.data)
    }
}

/// A forward reader over the chunks in a byte slice. The first malformed
/// chunk gives an error and ends the reading.
#[derive(Debug, Clone)]
pub struct ChunkReader<'a> {
    buf: &'a [u8],
    /// Offset of `buf[0]` within the enclosing datagram, for diagnostics.
    base: usize,
    pos: usize,
    done: bool,
}

impl<'a> ChunkReader<'a> {
    /// The bytes being read.
    pub closed spec fn buffer(&self) -> Seq<u8> {
        self.buf@
    }

    /// The offset that errors add to positions.
    pub closed spec fn base(&self) -> int {
        self.base as int
    }

    /// Where the next chunk starts.
    pub closed spec fn position(&self) -> int {
        self.pos as int
    }

    /// Whether an error has ended the reading.
    pub closed spec fn is_done(&self) -> bool {
        self.done
    }

    /// What the reader hands out from now on, call by call.
    pub open spec fn items(&self) -> Seq<ChunkItem> {
        spec_chunk_items(self.buffer(), self.base(), self.position(), self.is_done())
    }

    /// The position stays within the buffer, and positions plus the base fit
    /// in a `usize`.
    pub closed spec fn wf(&self) -> bool {
        &&& self.pos <= self.buf@.len()
        &&& self.base + self.buf@.len() <= usize::MAX
    }

    /// Create a reader over `buf`.
    pub fn new(buf: &'a [u8]) -> (r: Self)
        ensures
            r.wf(),
            r.buffer() == buf@,
            r.base() == 0,
            r.position() == 0,
            !r.is_done(),
            r.items() == spec_chunk_items(buf@, 0, 0, false),
    {
        // The call tells Verus that the length fits in a `usize`.
        let _n = buf.len();
        Self { buf, base: 0, pos: 0, done: false }
    }

    /// Create a reader whose error offsets are reported relative to `base`.
    pub fn with_base(buf: &'a [u8], base: usize) -> (r: Self)
        requires
            base + buf@.len() <= usize::MAX,
        ensures
            r.wf(),
            r.buffer() == buf@,
            r.base() == base,
            r.position() == 0,
            !r.is_done(),
            r.items() == spec_chunk_items(buf@, base as int, 0, false),
    {
        Self { buf, base, pos: 0, done: false }
    }

    /// The next chunk, an error for a malformed one (which ends the reading),
    /// or `None` at the end of the buffer or after an error.
    pub fn next(&mut self) -> (r: Option<Result<Chunk<'a>, PsnError>>)
        requires
            old(self).wf(),
        ensures
            final(self).wf(),
            0 <= final(self).position() <= final(self).buffer().len(),
            final(self).buffer() == old(self).buffer(),
            final(self).base() == old(self).base(),
            r is None ==> old(self).items() == Seq::<ChunkItem>::empty() && final(self).items()
                == Seq::<ChunkItem>::empty(),
            r matches Some(x) ==> old(self).items() == seq![chunk_item(x)] + final(self).items(),
            r matches Some(Err(_)) ==> final(self).is_done(),
            old(self).is_done() || old(self).position() >= old(self).buffer().len() ==> {
                &&& r is None
                &&& final(self).position() == old(self).position()
                &&& final(self).is_done() == old(self).is_done()
            },
            !(old(self).is_done() || old(self).position() >= old(self).buffer().len()) ==> {
                match spec_chunk_at(old(self).buffer(), old(self).base(), old(self).position()) {
                    Err(e) => {
                        &&& r == Some(Err::<Chunk<'a>, PsnError>(e))
                        &&& final(self).is_done()
                        &&& final(self).position() == old(self).position()
                    },
                    Ok(h) => {
                        &&& r matches Some(Ok(c)) && c.header == h && c.data@ == spec_chunk_data(
                            old(self).buffer(),
                            old(self).position(),
                        ) && c.data@.len() == h.data_len
                        &&& !final(self).is_done()
                        &&& final(self).position() == spec_chunk_end(
                            old(self).buffer(),
                            old(self).position(),
                        )
                    },
                }
            },
    {
        if self.done || self.pos >= self.buf.len() {
            return None;
        }
        let abs = self.base + self.pos;
        let rest = slice_subrange(self.buf, self.pos, self.buf.len());
        let header = match ChunkHeader::parse(rest, abs) {
            Ok(h) => h,
            Err(e) => {
                self.done = true;
                return Some(Err(e));
            },
        };
        proof {
            assert(rest@.subrange(0, 4) =~= self.buf@.subrange(self.pos as int, self.pos + 4));
            assert(rest@[0] == self.buf@[self.pos as int]);
            assert(rest@[1] == self.buf@[self.pos + 1]);
            assert(rest@[2] == self.buf@[self.pos + 2]);
            assert(rest@[3] == self.buf@[self.pos + 3]);
        }
        let data_start = self.pos + 4;
        let len = header.data_len as usize;
        if len > self.buf.len() - data_start {
            self.done = true;
            return Some(
                Err(
                    PsnError::ChunkOverrun {
                        offset: abs,
                        len,
                        available: self.buf.len() - data_start,
                    },
                ),
            );
        }
        let data_end = data_start + len;
        self.pos = data_end;
        Some(Ok(Chunk { header, data: slice_subrange(self.buf, data_start, data_end) }))
    }
}


/// `x` with the offset of a framing error moved on by `base`.
pub open spec fn shift_item(x: ChunkItem, base: int) -> ChunkItem {
    match x {
        Err(PsnError::UnexpectedEof { offset, needed }) => Err(
            PsnError::UnexpectedEof { offset: (offset + base) as usize, needed },
        ),
        Err(PsnError::ChunkOverrun { offset, len, available }) => Err(
            PsnError::ChunkOverrun { offset: (offset + base) as usize, len, available },
        ),
        other => other,
    }
}

/// An error is the last thing a chunk reader hands out: once `next` has
/// given an error, every later call gives `None`.
pub proof fn lemma_chunk_items_error_last(buf: Seq<u8>, base: int, pos: int, done: bool)
    ensures
        forall|i: int|
            0 <= i < spec_chunk_items(buf, base, pos, done).len() - 1
                ==> #[trigger] spec_chunk_items(buf, base, pos, done)[i] is Ok,
    decreases buf.len() - pos,
{
    if !(done || pos < 0 || pos >= buf.len()) {
        if let Ok(h) = spec_chunk_at(buf, base, pos) {
            let end = spec_chunk_end(buf, pos);
            lemma_chunk_items_error_last(buf, base, end, false);
            let rest = spec_chunk_items(buf, base, end, false);
            let all = spec_chunk_items(buf, base, pos, done);
            assert forall|i: int| 0 <= i < all.len() - 1 implies #[trigger] all[i] is Ok by {
                if i > 0 {
                    assert(all[i] == rest[i - 1]);
                }
            }
        }
    }
}

/// A reader made with a base hands out what a reader without one hands out,
/// the offsets of its framing errors moved on by `base`: the chunks, and the
/// call at which the reading ends, are the same.
pub proof fn lemma_chunk_items_base(buf: Seq<u8>, base: usize, pos: int, done: bool)
    requires
        base + buf.len() <= usize::MAX,
        0 <= pos,
    ensures
        spec_chunk_items(buf, base as int, pos, done) == spec_chunk_items(buf, 0, pos, done).map_values(
            |x: ChunkItem| shift_item(x, base as int),
        ),
    decreases buf.len() - pos,
{
    let with = spec_chunk_items(buf, base as int, pos, done);
    let without = spec_chunk_items(buf, 0, pos, done);
    if done || pos >= buf.len() {
        assert(with =~= without.map_values(|x: ChunkItem| shift_item(x, base as int)));
    } else {
        match spec_chunk_at(buf, 0, pos) {
            Err(e) => {
                assert(with =~= without.map_values(|x: ChunkItem| shift_item(x, base as int)));
            },
            Ok(h) => {
                let end = spec_chunk_end(buf, pos);
                lemma_chunk_items_base(buf, base, end, false);
                assert(with =~= without.map_values(|x: ChunkItem| shift_item(x, base as int)));
            },
        }
    }
}

} // verus!
