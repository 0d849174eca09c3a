//! Minimal big-endian (network-order) read cursor, and fixed-length name
//! fields.
use super::OtpError;
use crate::bytes::{be16_at, be32_at, be64_at, read_be16, read_be32, read_be64};
use crate::text::{string_from_utf8_lossy, utf8_lossy};
use vstd::prelude::*;
use vstd::slice::slice_subrange;
use vstd::utf8::{decode_utf8, valid_utf8};

verus! {

/// The error for a read at `offset` that lacks `needed` bytes.
pub open spec fn eof(offset: int, needed: int) -> OtpError {
    OtpError::UnexpectedEof { offset: offset as usize, needed: needed as usize }
}

pub(crate) struct Cursor<'a> {
    pub(crate) buf: &'a [u8],
    pub(crate) pos: usize,
}

/// What reading `n` bytes at `pos` of `buf` gives: `Ok` with the new
/// position, or the end-of-buffer error.
pub open spec fn spec_take(buf: Seq<u8>, pos: int, n: int) -> Result<int, OtpError> {
    if pos + n > buf.len() {
        Err(eof(pos, pos + n - buf.len()))
    } else {
        Ok(pos + n)
    }
}

impl<'a> Cursor<'a> {
    pub(crate) fn new(buf: &'a [u8]) -> (c: Self)
        ensures
            c.buf@ == buf@,
            c.pos == 0,
    {
        Self { buf, pos: 0 }
    }

    /// Bytes consumed so far.
    pub(crate) fn position(&self) -> (p: usize)
        ensures
            p == self.pos,
    {
        self.pos
    }

    pub(crate) fn take(&mut self, n: usize) -> (r: Result<&'a [u8], OtpError>)
        requires
            old(self).pos <= old(self).buf@.len(),
        ensures
            final(self).buf@ == old(self).buf@,
            final(self).pos <= final(self).buf@.len(),
            match spec_take(old(self).buf@, old(self).pos as int, n as int) {
                Ok(end) => r matches Ok(s) && s@ == old(self).buf@.subrange(
                    old(self).pos as int,
                    end,
                ) && final(self).pos == end,
                Err(e) => r == Err::<&'a [u8], OtpError>(e) && final(self).pos == old(self).pos,
            },
    {
        if n > self.buf.len() - self.pos {
            return Err(
                OtpError::UnexpectedEof { offset: self.pos, needed: n - (self.buf.len() - self.pos) },
            );
        }
        let end = self.pos + n;
        let s = slice_subrange(self.buf, self.pos, end);
        self.pos = end;
        Ok(s)
    }

    pub(crate) fn u8(&mut self) -> (r: Result<u8, OtpError>)
        requires
            old(self).pos <= old(self).buf@.len(),
        ensures
            final(self).buf@ == old(self).buf@,
            final(self).pos <= final(self).buf@.len(),
            match spec_take(old(self).buf@, old(self).pos as int, 1) {
                Ok(end) => r == Ok::<u8, OtpError>(old(self).buf@[old(self).pos as int])
                    && final(self).pos == end,
                Err(e) => r == Err::<u8, OtpError>(e) && final(self).pos == old(self).pos,
            },
    {
        let b = self.take(1)?;
        Ok(b[0])
    }

    pub(crate) fn u16(&mut self) -> (r: Result<u16, OtpError>)
        requires
            old(self).pos <= old(self).buf@.len(),
        ensures
            final(self).buf@ == old(self).buf@,
            final(self).pos <= final(self).buf@.len(),
            match spec_take(old(self).buf@, old(self).pos as int, 2) {
                Ok(end) => r == Ok::<u16, OtpError>(be16_at(old(self).buf@, old(self).pos as int))
                    && final(self).pos == end,
                Err(e) => r == Err::<u16, OtpError>(e) && final(self).pos == old(self).pos,
            },
    {
        let b = self.take(2)?;
        let v = read_be16(b, 0);
        proof {
            assert(b@[0] == self.buf@[old(self).pos as int]);
            assert(b@[1] == self.buf@[old(self).pos + 1]);
        }
        Ok(v)
    }

    pub(crate) fn u32(&mut self) -> (r: Result<u32, OtpError>)
        requires
            old(self).pos <= old(self).buf@.len(),
        ensures
            final(self).buf@ == old(self).buf@,
            final(self).pos <= final(self).buf@.len(),
            match spec_take(old(self).buf@, old(self).pos as int, 4) {
                Ok(end) => r == Ok::<u32, OtpError>(be32_at(old(self).buf@, old(self).pos as int))
                    && final(self).pos == end,
                Err(e) => r == Err::<u32, OtpError>(e) && final(self).pos == old(self).pos,
            },
    {
        let b = self.take(4)?;
        let v = read_be32(b, 0);
        proof {
            assert forall|k: int| 0 <= k < 4 implies b@[k] == self.buf@[old(self).pos + k] by {}
        }
        Ok(v)
    }

    pub(crate) fn i32(&mut self) -> (r: Result<i32, OtpError>)
        requires
            old(self).pos <= old(self).buf@.len(),
        ensures
            final(self).buf@ == old(self).buf@,
            final(self).pos <= final(self).buf@.len(),
            match spec_take(old(self).buf@, old(self).pos as int, 4) {
                Ok(end) => r == Ok::<i32, OtpError>(
                    be32_at(old(self).buf@, old(self).pos as int) as i32,
                ) && final(self).pos == end,
                Err(e) => r == Err::<i32, OtpError>(e) && final(self).pos == old(self).pos,
            },
    {
        let v = self.u32()?;
        Ok(v as i32)
    }

    pub(crate) fn u64(&mut self) -> (r: Result<u64, OtpError>)
        requires
            old(self).pos <= old(self).buf@.len(),
        ensures
            final(self).buf@ == old(self).buf@,
            final(self).pos <= final(self).buf@.len(),
            match spec_take(old(self).buf@, old(self).pos as int, 8) {
                Ok(end) => r == Ok::<u64, OtpError>(be64_at(old(self).buf@, old(self).pos as int))
                    && final(self).pos == end,
                Err(e) => r == Err::<u64, OtpError>(e) && final(self).pos == old(self).pos,
            },
    {
        let b = self.take(8)?;
        let v = read_be64(b, 0);
        proof {
            assert forall|k: int| 0 <= k < 8 implies b@[k] == self.buf@[old(self).pos + k] by {}
        }
        Ok(v)
    }

    /// Skip `n` bytes (e.g. reserved fields).
    pub(crate) fn skip(&mut self, n: usize) -> (r: Result<(), OtpError>)
        requires
            old(self).pos <= old(self).buf@.len(),
        ensures
            final(self).buf@ == old(self).buf@,
            final(self).pos <= final(self).buf@.len(),
            match spec_take(old(self).buf@, old(self).pos as int, n as int) {
                Ok(end) => r is Ok && final(self).pos == end,
                Err(e) => r == Err::<(), OtpError>(e) && final(self).pos == old(self).pos,
            },
    {
        let _ = self.take(n)?;
        Ok(())
    }
}

/// The index of the first NUL byte of `d` at or after `i`, or its length.
pub open spec fn first_nul(d: Seq<u8>, i: int) -> int
    decreases d.len() - i,
{
    if i < 0 || i >= d.len() {
        d.len() as int
    } else if d[i] == 0 {
        i
    } else {
        first_nul(d, i + 1)
    }
}

/// The text of a fixed-length, NUL-padded name field: the bytes before the
/// first NUL, decoded; lossily when they are not valid UTF-8.
pub open spec fn spec_fixed_name(d: Seq<u8>) -> Seq<char> {
    let b = d.subrange(0, first_nul(d, 0));
    if valid_utf8(b) {
        decode_utf8(b)
    } else {
        utf8_lossy(b)
    }
}

/// Decode a fixed-length, NUL-padded UTF-8 name field (lossy on bad UTF-8:
/// operator-entered names show replacement characters rather than drop the
/// whole packet).
pub(crate) fn fixed_name(data: &[u8]) -> (s: String)
    ensures
        s@ == spec_fixed_name(data@),
{
    let mut end: usize = 0;
    while end < data.len() && data[end] != 0
        invariant
            end <= data@.len(),
            first_nul(data@, 0) == first_nul(data@, end as int),
        decreases data@.len() - end,
    {
        end = end + 1;
    }
    string_from_utf8_lossy(slice_subrange(data, 0, end))
}

} // verus!
