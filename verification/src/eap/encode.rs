//! EAP encoder: build a network-variables datagram from a telegram; the
//! inverse of decoding.
use super::{
    spec_decode, spec_decode_nv, spec_decode_variable, spec_decode_variables, EapError,
    NetworkVariable, PublisherTelegram, TelegramModel, VariableModel, FRAME_TYPE_NV_BITS,
};
use crate::bytes::{le16_bytes, lemma_le16_read, lemma_window, push_all, push_le16};
use vstd::prelude::*;

verus! {

/// The bytes of one variable: its 8-byte header, then its data.
pub open spec fn spec_encode_variable(v: VariableModel) -> Seq<u8> {
    le16_bytes(v.id) + le16_bytes(v.hash) + le16_bytes(v.data.len() as u16) + le16_bytes(v.quality)
        + v.data
}

/// The bytes of a list of variables, one after the other.
pub open spec fn spec_encode_variables(vs: Seq<VariableModel>) -> Seq<u8>
    decreases vs.len(),
{
    if vs.len() == 0 {
        Seq::empty()
    } else {
        spec_encode_variables(vs.drop_last()) + spec_encode_variable(vs.last())
    }
}

/// The NV payload of a telegram: publisher, count, cycle index, reserved
/// zero, then the variables.
pub open spec fn spec_encode_nv(t: TelegramModel) -> Seq<u8> {
    t.publisher + le16_bytes(t.variables.len() as u16) + le16_bytes(t.cycle_index) + le16_bytes(0)
        + spec_encode_variables(t.variables)
}

/// The datagram of a telegram: the frame header (type 4, the payload length
/// masked to 11 bits), then the NV payload.
pub open spec fn spec_encode(t: TelegramModel) -> Seq<u8> {
    le16_bytes((0x4000u16 | ((spec_encode_nv(t).len() as u16) & 0x07FFu16)) as u16)
        + spec_encode_nv(t)
}

impl<'a> PublisherTelegram<'a> {
    /// Encode this telegram into a datagram that begins with the EtherCAT
    /// frame header (type = network variables). Variable data is copied
    /// verbatim. The frame header's 11-bit length field holds the payload
    /// length masked to 11 bits, and the count and data lengths are written as
    /// `u16`, truncated.
    pub fn encode(&self) -> (out: Vec<u8>)
        ensures
            out@ == spec_encode(self@),
    {
        let ghost model = self@;
        let mut nv: Vec<u8> = Vec::new();
        push_all(&mut nv, self.publisher.as_slice());
        push_le16(&mut nv, self.variables.len() as u16);
        push_le16(&mut nv, self.cycle_index);
        push_le16(&mut nv, 0);  // reserved
        let ghost head = nv@;
        let mut i: usize = 0;
        while i < self.variables.len()
            invariant
                model == self@,
                i <= self.variables@.len(),
                nv@ == head + spec_encode_variables(model.variables.take(i as int)),
            decreases self.variables@.len() - i,
        {
            let v: NetworkVariable = self.variables[i];
            push_le16(&mut nv, v.id);
            push_le16(&mut nv, v.hash);
            push_le16(&mut nv, v.data.len() as u16);
            push_le16(&mut nv, v.quality);
            push_all(&mut nv, v.data);
            proof {
                let vs = model.variables.take(i + 1);
                assert(vs.drop_last() =~= model.variables.take(i as int));
                assert(vs.last() == v@);
                assert(nv@ =~= head + spec_encode_variables(vs));
            }
            i = i + 1;
        }
        proof {
            assert(model.variables.take(i as int) =~= model.variables);
            assert(nv@ =~= spec_encode_nv(model));
        }
        let word: u16 = FRAME_TYPE_NV_BITS | ((nv.len() as u16) & 0x07FF);
        let mut out: Vec<u8> = Vec::new();
        push_le16(&mut out, word);
        push_all(&mut out, nv.as_slice());
        assert(out@ =~= spec_encode(model));
        out
    }
}

/// The encoding of a list of variables, split after its first variable.
proof fn lemma_encode_variables_front(vs: Seq<VariableModel>)
    requires
        vs.len() > 0,
    ensures
        spec_encode_variables(vs) == spec_encode_variable(vs[0]) + spec_encode_variables(
            vs.drop_first(),
        ),
    decreases vs.len(),
{
    if vs.len() == 1 {
        assert(vs.drop_last() =~= Seq::<VariableModel>::empty());
        assert(vs.drop_first() =~= Seq::<VariableModel>::empty());
        assert(spec_encode_variables(vs) =~= spec_encode_variable(vs[0]) + spec_encode_variables(
            vs.drop_first(),
        ));
    } else {
        lemma_encode_variables_front(vs.drop_last());
        assert(vs.drop_last().drop_first() =~= vs.drop_first().drop_last());
        assert(vs.drop_first().last() == vs.last());
        assert(vs.drop_last()[0] == vs[0]);
        assert(spec_encode_variables(vs) =~= spec_encode_variable(vs[0]) + spec_encode_variables(
            vs.drop_first(),
        ));
    }
}

/// Decoding the encoding of one variable gives it back.
proof fn lemma_decode_variable(s: Seq<u8>, pos: int, v: VariableModel)
    requires
        0 <= pos,
        v.data.len() <= 0xFFFF,
        pos + spec_encode_variable(v).len() <= s.len(),
        s.subrange(pos, pos + spec_encode_variable(v).len()) == spec_encode_variable(v),
    ensures
        spec_decode_variable(s, pos) == Ok::<(VariableModel, int), EapError>(
            (v, pos + spec_encode_variable(v).len()),
        ),
{
    let e = spec_encode_variable(v);
    lemma_window(s, pos, e, 0, 2);
    assert(e.subrange(0, 2) =~= le16_bytes(v.id));
    lemma_le16_read(s, pos, v.id);
    lemma_window(s, pos, e, 2, 4);
    assert(e.subrange(2, 4) =~= le16_bytes(v.hash));
    lemma_le16_read(s, pos + 2, v.hash);
    lemma_window(s, pos, e, 4, 6);
    assert(e.subrange(4, 6) =~= le16_bytes(v.data.len() as u16));
    lemma_le16_read(s, pos + 4, v.data.len() as u16);
    lemma_window(s, pos, e, 6, 8);
    assert(e.subrange(6, 8) =~= le16_bytes(v.quality));
    lemma_le16_read(s, pos + 6, v.quality);
    lemma_window(s, pos, e, 8, e.len() as int);
    assert(e.subrange(8, e.len() as int) =~= v.data);
    let (w, end) = spec_decode_variable(s, pos).unwrap();
    assert(w.data =~= v.data);
}

/// Decoding the encoding of a list of variables gives it back.
proof fn lemma_decode_variables(s: Seq<u8>, pos: int, vs: Seq<VariableModel>)
    requires
        0 <= pos,
        forall|k: int| 0 <= k < vs.len() ==> (#[trigger] vs[k]).data.len() <= 0xFFFF,
        pos + spec_encode_variables(vs).len() <= s.len(),
        s.subrange(pos, pos + spec_encode_variables(vs).len()) == spec_encode_variables(vs),
    ensures
        spec_decode_variables(s, pos, vs.len()) == Ok::<Seq<VariableModel>, EapError>(vs),
    decreases vs.len(),
{
    if vs.len() == 0 {
        assert(vs =~= Seq::<VariableModel>::empty());
    } else {
        lemma_encode_variables_front(vs);
        let all = spec_encode_variables(vs);
        let first = spec_encode_variable(vs[0]);
        let rest = spec_encode_variables(vs.drop_first());
        lemma_window(s, pos, all, 0, first.len() as int);
        assert(all.subrange(0, first.len() as int) =~= first);
        lemma_decode_variable(s, pos, vs[0]);
        lemma_window(s, pos, all, first.len() as int, all.len() as int);
        assert(all.subrange(first.len() as int, all.len() as int) =~= rest);
        lemma_decode_variables(s, pos + first.len(), vs.drop_first());
        assert(seq![vs[0]] + vs.drop_first() =~= vs);
    }
}

/// Round trip: decoding what `encode` writes gives the telegram back, for a
/// six-byte publisher, at most 65535 variables and at most 65535 data bytes
/// per variable (the widths of the count and length fields).
pub proof fn lemma_decode_encode(t: TelegramModel)
    requires
        t.publisher.len() == 6,
        t.variables.len() <= 0xFFFF,
        forall|k: int|
            0 <= k < t.variables.len() ==> (#[trigger] t.variables[k]).data.len() <= 0xFFFF,
    ensures
        spec_decode(spec_encode(t)) == Ok::<TelegramModel, EapError>(t),
{
    let nv = spec_encode_nv(t);
    let buf = spec_encode(t);
    let low = nv.len() as u16;
    let word = (0x4000u16 | (low & 0x07FFu16)) as u16;
    assert(buf.subrange(0, 2) =~= le16_bytes(word));
    lemma_le16_read(buf, 0, word);
    assert((((word >> 12u16) & 0x0Fu16) as u8) == 4u8) by (bit_vector)
        requires
            word == (0x4000u16 | (low & 0x07FFu16)) as u16,
    ;
    assert(buf.subrange(2, buf.len() as int) =~= nv);
    let n = t.variables.len() as u16;
    assert(nv.subrange(6, 8) =~= le16_bytes(n));
    lemma_le16_read(nv, 6, n);
    assert(nv.subrange(8, 10) =~= le16_bytes(t.cycle_index));
    lemma_le16_read(nv, 8, t.cycle_index);
    let vars = spec_encode_variables(t.variables);
    assert(nv.subrange(12, nv.len() as int) =~= vars);
    lemma_decode_variables(nv, 12, t.variables);
    assert(nv.subrange(0, 6) =~= t.publisher);
    let d = spec_decode(buf);
    assert(d == spec_decode_nv(nv));
    assert(d.unwrap().variables =~= t.variables);
}

} // verus!
