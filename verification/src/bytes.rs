//! Byte-order helpers shared by the protocol modules: reading and writing
//! fixed-width integers in big- and little-endian order, and the facts that a
//! value written is the value read back.
use vstd::prelude::*;

verus! {

// ---------------------------------------------------------------------------
// Reading
// ---------------------------------------------------------------------------

/// Big-endian `u16` stored at `s[i..i + 2]`.
pub open spec fn be16_at(s: Seq<u8>, i: int) -> u16 {
    (((s[i] as u16) << 8u16) | (s[i + 1] as u16)) as u16
}

/// Big-endian `u32` stored at `s[i..i + 4]`.
pub open spec fn be32_at(s: Seq<u8>, i: int) -> u32 {
    (((s[i] as u32) << 24u32) | ((s[i + 1] as u32) << 16u32) | ((s[i + 2] as u32) << 8u32) | (s[i
        + 3] as u32)) as u32
}

/// Big-endian `u64` stored at `s[i..i + 8]`.
pub open spec fn be64_at(s: Seq<u8>, i: int) -> u64 {
    (((be32_at(s, i) as u64) << 32u64) | (be32_at(s, i + 4) as u64)) as u64
}

/// Little-endian `u16` stored at `s[i..i + 2]`.
pub open spec fn le16_at(s: Seq<u8>, i: int) -> u16 {
    (((s[i + 1] as u16) << 8u16) | (s[i] as u16)) as u16
}

/// Little-endian `u32` stored at `s[i..i + 4]`.
pub open spec fn le32_at(s: Seq<u8>, i: int) -> u32 {
    (((s[i + 3] as u32) << 24u32) | ((s[i + 2] as u32) << 16u32) | ((s[i + 1] as u32) << 8u32) | (s[i]
        as u32)) as u32
}

/// Little-endian `u64` stored at `s[i..i + 8]`.
pub open spec fn le64_at(s: Seq<u8>, i: int) -> u64 {
    (((le32_at(s, i + 4) as u64) << 32u64) | (le32_at(s, i) as u64)) as u64
}

/// The big-endian `u16` at `buf[pos..pos + 2]`.
pub fn read_be16(buf: &[u8], pos: usize) -> (v: u16)
    requires
        pos + 2 <= buf@.len(),
    ensures
        v == be16_at(buf@, pos as int),
{
    // The call tells Verus that the length fits in a `usize`.
    let _n = buf.len();
    ((buf[pos] as u16) << 8u16) | (buf[pos + 1] as u16)
}

/// The big-endian `u32` at `buf[pos..pos + 4]`.
pub fn read_be32(buf: &[u8], pos: usize) -> (v: u32)
    requires
        pos + 4 <= buf@.len(),
    ensures
        v == be32_at(buf@, pos as int),
{
    // The call tells Verus that the length fits in a `usize`.
    let _n = buf.len();
    ((buf[pos] as u32) << 24u32) | ((buf[pos + 1] as u32) << 16u32) | ((buf[pos + 2] as u32)
        << 8u32) | (buf[pos + 3] as u32)
}

/// The big-endian `u64` at `buf[pos..pos + 8]`.
pub fn read_be64(buf: &[u8], pos: usize) -> (v: u64)
    requires
        pos + 8 <= buf@.len(),
    ensures
        v == be64_at(buf@, pos as int),
{
    // The call tells Verus that the length fits in a `usize`.
    let _n = buf.len();
    let hi = read_be32(buf, pos);
    let lo = read_be32(buf, pos + 4);
    ((hi as u64) << 32u64) | (lo as u64)
}

/// The little-endian `u16` at `buf[pos..pos + 2]`.
pub fn read_le16(buf: &[u8], pos: usize) -> (v: u16)
    requires
        pos + 2 <= buf@.len(),
    ensures
        v == le16_at(buf@, pos as int),
{
    // The call tells Verus that the length fits in a `usize`.
    let _n = buf.len();
    ((buf[pos + 1] as u16) << 8u16) | (buf[pos] as u16)
}

/// The little-endian `u32` at `buf[pos..pos + 4]`.
pub fn read_le32(buf: &[u8], pos: usize) -> (v: u32)
    requires
        pos + 4 <= buf@.len(),
    ensures
        v == le32_at(buf@, pos as int),
{
    // The call tells Verus that the length fits in a `usize`.
    let _n = buf.len();
    ((buf[pos + 3] as u32) << 24u32) | ((buf[pos + 2] as u32) << 16u32) | ((buf[pos + 1] as u32)
        << 8u32) | (buf[pos] as u32)
}

/// The little-endian `u64` at `buf[pos..pos + 8]`.
pub fn read_le64(buf: &[u8], pos: usize) -> (v: u64)
    requires
        pos + 8 <= buf@.len(),
    ensures
        v == le64_at(buf@, pos as int),
{
    // The call tells Verus that the length fits in a `usize`.
    let _n = buf.len();
    let lo = read_le32(buf, pos);
    let hi = read_le32(buf, pos + 4);
    ((hi as u64) << 32u64) | (lo as u64)
}

// ---------------------------------------------------------------------------
// Writing
// ---------------------------------------------------------------------------

/// The two big-endian bytes of `v`.
pub open spec fn be16_bytes(v: u16) -> Seq<u8> {
    seq![(v >> 8u16) as u8, v as u8]
}

/// The four big-endian bytes of `v`.
pub open spec fn be32_bytes(v: u32) -> Seq<u8> {
    seq![(v >> 24u32) as u8, (v >> 16u32) as u8, (v >> 8u32) as u8, v as u8]
}

/// The eight big-endian bytes of `v`.
pub open spec fn be64_bytes(v: u64) -> Seq<u8> {
    be32_bytes((v >> 32u64) as u32) + be32_bytes(v as u32)
}

/// The two little-endian bytes of `v`.
pub open spec fn le16_bytes(v: u16) -> Seq<u8> {
    seq![v as u8, (v >> 8u16) as u8]
}

/// The four little-endian bytes of `v`.
pub open spec fn le32_bytes(v: u32) -> Seq<u8> {
    seq![v as u8, (v >> 8u32) as u8, (v >> 16u32) as u8, (v >> 24u32) as u8]
}

/// The eight little-endian bytes of `v`.
pub open spec fn le64_bytes(v: u64) -> Seq<u8> {
    le32_bytes(v as u32) + le32_bytes((v >> 32u64) as u32)
}

/// Append the 2 big-endian bytes of `v`.
pub fn push_be16(out: &mut Vec<u8>, v: u16)
    ensures
        final(out)@ == old(out)@ + be16_bytes(v),
{
    out.push((v >> 8u16) as u8);
    out.push(v as u8);
    assert(out@ =~= old(out)@ + be16_bytes(v));
}

/// Append the 4 big-endian bytes of `v`.
pub fn push_be32(out: &mut Vec<u8>, v: u32)
    ensures
        final(out)@ == old(out)@ + be32_bytes(v),
{
    out.push((v >> 24u32) as u8);
    out.push((v >> 16u32) as u8);
    out.push((v >> 8u32) as u8);
    out.push(v as u8);
    assert(out@ =~= old(out)@ + be32_bytes(v));
}

/// Append the 8 big-endian bytes of `v`.
pub fn push_be64(out: &mut Vec<u8>, v: u64)
    ensures
        final(out)@ == old(out)@ + be64_bytes(v),
{
    push_be32(out, (v >> 32u64) as u32);
    push_be32(out, v as u32);
    assert(out@ =~= old(out)@ + be64_bytes(v));
}

/// Append the 2 little-endian bytes of `v`.
pub fn push_le16(out: &mut Vec<u8>, v: u16)
    ensures
        final(out)@ == old(out)@ + le16_bytes(v),
{
    out.push(v as u8);
    out.push((v >> 8u16) as u8);
    assert(out@ =~= old(out)@ + le16_bytes(v));
}

/// Append the 4 little-endian bytes of `v`.
pub fn push_le32(out: &mut Vec<u8>, v: u32)
    ensures
        final(out)@ == old(out)@ + le32_bytes(v),
{
    out.push(v as u8);
    out.push((v >> 8u32) as u8);
    out.push((v >> 16u32) as u8);
    out.push((v >> 24u32) as u8);
    assert(out@ =~= old(out)@ + le32_bytes(v));
}

/// Append the 8 little-endian bytes of `v`.
pub fn push_le64(out: &mut Vec<u8>, v: u64)
    ensures
        final(out)@ == old(out)@ + le64_bytes(v),
{
    push_le32(out, v as u32);
    push_le32(out, (v >> 32u64) as u32);
    assert(out@ =~= old(out)@ + le64_bytes(v));
}

/// Appends every byte of `data` to `out`.
pub fn push_all(out: &mut Vec<u8>, data: &[u8])
    ensures
        final(out)@ == old(out)@ + data@,
{
    let mut i: usize = 0;
    while i < data.len()
        invariant
            i <= data@.len(),
            out@ == old(out)@ + data@.subrange(0, i as int),
        decreases data@.len() - i,
    {
        out.push(data[i]);
        i = i + 1;
        assert(out@ =~= old(out)@ + data@.subrange(0, i as int));
    }
    assert(data@.subrange(0, data@.len() as int) =~= data@);
}

// ---------------------------------------------------------------------------
// What is written is what is read
// ---------------------------------------------------------------------------

proof fn lemma_u16_split(v: u16)
    ensures
        ((((v >> 8u16) as u8) as u16) << 8u16) | ((v as u8) as u16) == v,
{
    assert(((((v >> 8u16) as u8) as u16) << 8u16) | ((v as u8) as u16) == v) by (bit_vector);
}

proof fn lemma_u32_split(v: u32)
    ensures
        ((((v >> 24u32) as u8) as u32) << 24u32) | ((((v >> 16u32) as u8) as u32) << 16u32) | ((((v
            >> 8u32) as u8) as u32) << 8u32) | ((v as u8) as u32) == v,
{
    assert(((((v >> 24u32) as u8) as u32) << 24u32) | ((((v >> 16u32) as u8) as u32) << 16u32) | ((((
    v >> 8u32) as u8) as u32) << 8u32) | ((v as u8) as u32) == v) by (bit_vector);
}

proof fn lemma_u64_split(v: u64)
    ensures
        (((((v >> 32u64) as u32) as u64) << 32u64) | ((v as u32) as u64)) == v,
{
    assert((((((v >> 32u64) as u32) as u64) << 32u64) | ((v as u32) as u64)) == v) by (bit_vector);
}

/// Reading back the 2 big-endian bytes of `v` gives `v`.
pub proof fn lemma_be16_read(s: Seq<u8>, i: int, v: u16)
    requires
        0 <= i,
        i + 2 <= s.len(),
        s.subrange(i, i + 2) == be16_bytes(v),
    ensures
        be16_at(s, i) == v,
{
    assert(s[i] == s.subrange(i, i + 2)[0]);
    assert(s[i + 1] == s.subrange(i, i + 2)[1]);
    lemma_u16_split(v);
}

/// Reading back the 4 big-endian bytes of `v` gives `v`.
pub proof fn lemma_be32_read(s: Seq<u8>, i: int, v: u32)
    requires
        0 <= i,
        i + 4 <= s.len(),
        s.subrange(i, i + 4) == be32_bytes(v),
    ensures
        be32_at(s, i) == v,
{
    assert(s[i] == s.subrange(i, i + 4)[0]);
    assert(s[i + 1] == s.subrange(i, i + 4)[1]);
    assert(s[i + 2] == s.subrange(i, i + 4)[2]);
    assert(s[i + 3] == s.subrange(i, i + 4)[3]);
    lemma_u32_split(v);
}

/// Reading back the 8 big-endian bytes of `v` gives `v`.
pub proof fn lemma_be64_read(s: Seq<u8>, i: int, v: u64)
    requires
        0 <= i,
        i + 8 <= s.len(),
        s.subrange(i, i + 8) == be64_bytes(v),
    ensures
        be64_at(s, i) == v,
{
    assert(s.subrange(i, i + 4) =~= s.subrange(i, i + 8).subrange(0, 4));
    assert(s.subrange(i + 4, i + 8) =~= s.subrange(i, i + 8).subrange(4, 8));
    assert(be64_bytes(v).subrange(0, 4) =~= be32_bytes((v >> 32u64) as u32));
    assert(be64_bytes(v).subrange(4, 8) =~= be32_bytes(v as u32));
    lemma_be32_read(s, i, (v >> 32u64) as u32);
    lemma_be32_read(s, i + 4, v as u32);
    lemma_u64_split(v);
}

/// Reading back the 2 little-endian bytes of `v` gives `v`.
pub proof fn lemma_le16_read(s: Seq<u8>, i: int, v: u16)
    requires
        0 <= i,
        i + 2 <= s.len(),
        s.subrange(i, i + 2) == le16_bytes(v),
    ensures
        le16_at(s, i) == v,
{
    assert(s[i] == s.subrange(i, i + 2)[0]);
    assert(s[i + 1] == s.subrange(i, i + 2)[1]);
    lemma_u16_split(v);
}

/// Reading back the 4 little-endian bytes of `v` gives `v`.
pub proof fn lemma_le32_read(s: Seq<u8>, i: int, v: u32)
    requires
        0 <= i,
        i + 4 <= s.len(),
        s.subrange(i, i + 4) == le32_bytes(v),
    ensures
        le32_at(s, i) == v,
{
    assert(s[i] == s.subrange(i, i + 4)[0]);
    assert(s[i + 1] == s.subrange(i, i + 4)[1]);
    assert(s[i + 2] == s.subrange(i, i + 4)[2]);
    assert(s[i + 3] == s.subrange(i, i + 4)[3]);
    lemma_u32_split(v);
}

/// Reading back the 8 little-endian bytes of `v` gives `v`.
pub proof fn lemma_le64_read(s: Seq<u8>, i: int, v: u64)
    requires
        0 <= i,
        i + 8 <= s.len(),
        s.subrange(i, i + 8) == le64_bytes(v),
    ensures
        le64_at(s, i) == v,
{
    assert(s.subrange(i, i + 4) =~= s.subrange(i, i + 8).subrange(0, 4));
    assert(s.subrange(i + 4, i + 8) =~= s.subrange(i, i + 8).subrange(4, 8));
    assert(le64_bytes(v).subrange(0, 4) =~= le32_bytes(v as u32));
    assert(le64_bytes(v).subrange(4, 8) =~= le32_bytes((v >> 32u64) as u32));
    lemma_le32_read(s, i, v as u32);
    lemma_le32_read(s, i + 4, (v >> 32u64) as u32);
    lemma_u64_split(v);
}

} // verus!

verus! {

/// A window of `s` that equals `whole` shows every sub-window of `whole`.
pub proof fn lemma_window(s: Seq<u8>, pos: int, whole: Seq<u8>, a: int, b: int)
    requires
        0 <= pos,
        pos + whole.len() <= s.len(),
        s.subrange(pos, pos + whole.len()) == whole,
        0 <= a <= b <= whole.len(),
    ensures
        s.subrange(pos + a, pos + b) == whole.subrange(a, b),
{
    assert forall|k: int| 0 <= k < b - a implies s.subrange(pos + a, pos + b)[k] == whole.subrange(
        a,
        b,
    )[k] by {
        assert(s.subrange(pos, pos + whole.len())[a + k] == whole[a + k]);
    }
    assert(s.subrange(pos + a, pos + b) =~= whole.subrange(a, b));
}

} // verus!

verus! {

/// The tail of `s` from `pos` that is `a + b` splits into `a`, then `b`.
pub proof fn lemma_split_tail(s: Seq<u8>, pos: int, a: Seq<u8>, b: Seq<u8>)
    requires
        0 <= pos <= s.len(),
        s.subrange(pos, s.len() as int) == a + b,
    ensures
        pos + a.len() <= s.len(),
        s.subrange(pos, pos + a.len()) == a,
        s.subrange(pos + a.len(), s.len() as int) == b,
{
    let t = s.subrange(pos, s.len() as int);
    assert(t.len() == a.len() + b.len());
    assert forall|k: int| 0 <= k < a.len() implies s.subrange(pos, pos + a.len())[k] == a[k] by {
        assert(t[k] == (a + b)[k]);
    }
    assert(s.subrange(pos, pos + a.len()) =~= a);
    assert forall|k: int| 0 <= k < b.len() implies s.subrange(pos + a.len(), s.len() as int)[k]
        == b[k] by {
        assert(t[a.len() + k] == (a + b)[a.len() + k]);
    }
    assert(s.subrange(pos + a.len(), s.len() as int) =~= b);
}

} // verus!
