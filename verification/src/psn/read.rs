//! Little-endian read cursor over a byte slice, and UTF-8 string fields.
use super::{PsnError, Vec3};
use crate::bytes::{le32_at, le64_at, read_le32, read_le64};
use crate::text::string_from_utf8;
use vstd::prelude::*;
use vstd::slice::slice_subrange;
use vstd::utf8::{decode_utf8, valid_utf8};

verus! {

/// The error for a read at `offset` that lacks `needed` bytes.
pub open spec fn eof(offset: int, needed: int) -> PsnError {
    PsnError::UnexpectedEof { offset: offset as usize, needed: needed as usize }
}

/// The vector whose three little-endian components open `d`.
pub open spec fn spec_read_vec3(d: Seq<u8>) -> Result<Vec3, PsnError> {
    if d.len() < 4 {
        Err(eof(0, 4 - d.len()))
    } else if d.len() < 8 {
        Err(eof(4, 8 - d.len()))
    } else if d.len() < 12 {
        Err(eof(8, 12 - d.len()))
    } else {
        Ok(Vec3 { x: le32_at(d, 0), y: le32_at(d, 4), z: le32_at(d, 8) })
    }
}

/// The 32-bit value (the bits of a binary32 float) that opens `d`.
pub open spec fn spec_read_float_bits(d: Seq<u8>) -> Result<u32, PsnError> {
    if d.len() < 4 {
        Err(eof(0, 4 - d.len()))
    } else {
        Ok(le32_at(d, 0))
    }
}

/// The `u64` that opens `d`.
pub open spec fn spec_read_u64(d: Seq<u8>) -> Result<u64, PsnError> {
    if d.len() < 8 {
        Err(eof(0, 8 - d.len()))
    } else {
        Ok(le64_at(d, 0))
    }
}

/// The string that `d` holds, all of it, or an error where it is not UTF-8.
pub open spec fn spec_utf8_string(d: Seq<u8>) -> Result<Seq<char>, PsnError> {
    if valid_utf8(d) {
        Ok(decode_utf8(d))
    } else {
        Err(PsnError::InvalidUtf8 { offset: 0 })
    }
}

pub(crate) struct Cursor<'a> {
    pub(crate) buf: &'a [u8],
    pub(crate) pos: usize,
}

impl<'a> Cursor<'a> {
    pub(crate) fn new(buf: &'a [u8]) -> (c: Self)
        ensures
            c.buf@ == buf@,
            c.pos == 0,
    {
        Self { buf, pos: 0 }
    }

    pub(crate) fn take(&mut self, n: usize) -> (r: Result<&'a [u8], PsnError>)
        requires
            old(self).pos <= old(self).buf@.len(),
        ensures
            final(self).buf@ == old(self).buf@,
            final(self).pos <= final(self).buf@.len(),
            n <= old(self).buf@.len() - old(self).pos ==> {
                &&& r matches Ok(s) && s@ == old(self).buf@.subrange(
                    old(self).pos as int,
                    old(self).pos + n,
                )
                &&& final(self).pos == old(self).pos + n
            },
            n > old(self).buf@.len() - old(self).pos ==> {
                &&& r == Err::<&'a [u8], PsnError>(
                    eof(old(self).pos as int, old(self).pos + n - old(self).buf@.len()),
                )
                &&& final(self).pos == old(self).pos
            },
    {
        if n > self.buf.len() - self.pos {
            return Err(
                PsnError::UnexpectedEof { offset: self.pos, needed: n - (self.buf.len() - self.pos) },
            );
        }
        let end = self.pos + n;
        let s = slice_subrange(self.buf, self.pos, end);
        self.pos = end;
        Ok(s)
    }

    pub(crate) fn u8(&mut self) -> (r: Result<u8, PsnError>)
        requires
            old(self).pos <= old(self).buf@.len(),
        ensures
            final(self).buf@ == old(self).buf@,
            final(self).pos <= final(self).buf@.len(),
            old(self).pos < old(self).buf@.len() ==> {
                &&& r == Ok::<u8, PsnError>(old(self).buf@[old(self).pos as int])
                &&& final(self).pos == old(self).pos + 1
            },
            old(self).pos >= old(self).buf@.len() ==> r == Err::<u8, PsnError>(
                eof(old(self).pos as int, 1),
            ),
    {
        let b = self.take(1)?;
        Ok(b[0])
    }

    pub(crate) fn u64(&mut self) -> (r: Result<u64, PsnError>)
        requires
            old(self).pos <= old(self).buf@.len(),
        ensures
            final(self).buf@ == old(self).buf@,
            final(self).pos <= final(self).buf@.len(),
            old(self).pos + 8 <= old(self).buf@.len() ==> {
                &&& r == Ok::<u64, PsnError>(le64_at(old(self).buf@, old(self).pos as int))
                &&& final(self).pos == old(self).pos + 8
            },
            old(self).pos + 8 > old(self).buf@.len() ==> r == Err::<u64, PsnError>(
                eof(old(self).pos as int, old(self).pos + 8 - old(self).buf@.len()),
            ),
    {
        let b = self.take(8)?;
        let v = read_le64(b, 0);
        proof {
            assert forall|k: int| 0 <= k < 8 implies b@[k] == self.buf@[old(self).pos + k] by {}
        }
        Ok(v)
    }

    /// The bits of a little-endian IEEE-754 binary32 value.
    pub(crate) fn float_bits(&mut self) -> (r: Result<u32, PsnError>)
        requires
            old(self).pos <= old(self).buf@.len(),
        ensures
            final(self).buf@ == old(self).buf@,
            final(self).pos <= final(self).buf@.len(),
            old(self).pos + 4 <= old(self).buf@.len() ==> {
                &&& r == Ok::<u32, PsnError>(le32_at(old(self).buf@, old(self).pos as int))
                &&& final(self).pos == old(self).pos + 4
            },
            old(self).pos + 4 > old(self).buf@.len() ==> r == Err::<u32, PsnError>(
                eof(old(self).pos as int, old(self).pos + 4 - old(self).buf@.len()),
            ),
    {
        let b = self.take(4)?;
        let v = read_le32(b, 0);
        proof {
            assert forall|k: int| 0 <= k < 4 implies b@[k] == self.buf@[old(self).pos + k] by {}
        }
        Ok(v)
    }

    pub(crate) fn vec3(&mut self) -> (r: Result<Vec3, PsnError>)
        requires
            old(self).pos == 0,
        ensures
            r == spec_read_vec3(old(self).buf@),
    {
        let x = self.float_bits()?;
        let y = self.float_bits()?;
        let z = self.float_bits()?;
        Ok(Vec3::new(x, y, z))
    }
}

/// Decode a UTF-8 string occupying the whole slice (PSN strings are not
/// NUL-terminated; the length comes from the chunk header).
pub(crate) fn utf8_string(data: &[u8]) -> (r: Result<String, PsnError>)
    ensures
        match r {
            Ok(s) => spec_utf8_string(data@) == Ok::<Seq<char>, PsnError>(s@),
            Err(e) => spec_utf8_string(data@) == Err::<Seq<char>, PsnError>(e),
        },
{
    match string_from_utf8(data) {
        Some(s) => Ok(s),
        None => Err(PsnError::InvalidUtf8 { offset: 0 }),
    }
}

} // verus!
