//! The proof transcript `(t, c, s)`: the three exchanged values, the only
//! data that crosses a process boundary. It carries no secret and is safe
//! to log or store. Its wire form is the ordered triple, each value as its
//! minimal big-endian bytes behind an 8-byte big-endian length prefix.

use crate::bigint::Num;
use crate::codec::{
    be64_bytes, be_bytes_of, be_val, is_minimal_be, lemma_be64_round_trip, lemma_be_bytes_minimal,
    lemma_be_round_trip, push_all, push_be64,
};
use vstd::prelude::*;

verus! {

/// A byte field behind its 8-byte big-endian length prefix.
pub open spec fn framed(bytes: Seq<u8>) -> Seq<u8> {
    be64_bytes(bytes.len() as u64) + bytes
}

/// The wire form of a transcript: the framed minimal encodings of `t`, `c`
/// and `s`, in that order.
pub open spec fn wire_form(t: nat, c: nat, s: nat) -> Seq<u8> {
    framed(be_bytes_of(t)) + framed(be_bytes_of(c)) + framed(be_bytes_of(s))
}

/// The value and end offset of the frame at `start`, if the bytes there
/// carry a well-formed one: an 8-byte big-endian length, then that many
/// bytes of a minimal big-endian value.
pub open spec fn parse_frame(bytes: Seq<u8>, start: int) -> Option<(nat, int)> {
    if start < 0 || start + 8 > bytes.len() {
        None
    } else {
        let flen = be_val(bytes.subrange(start, start + 8)) as int;
        if start + 8 + flen > bytes.len() {
            None
        } else {
            let field = bytes.subrange(start + 8, start + 8 + flen);
            if is_minimal_be(field) {
                Some((be_val(field), start + 8 + flen))
            } else {
                None
            }
        }
    }
}

/// The three values of a transcript, if the bytes are exactly one
/// well-formed wire form and nothing else.
pub open spec fn parse_wire(bytes: Seq<u8>) -> Option<(nat, nat, nat)> {
    match parse_frame(bytes, 0) {
        None => None,
        Some(f1) => match parse_frame(bytes, f1.1) {
            None => None,
            Some(f2) => match parse_frame(bytes, f2.1) {
                None => None,
                Some(f3) => if f3.1 == bytes.len() {
                    Some((f1.0, f2.0, f3.0))
                } else {
                    None
                },
            },
        },
    }
}

/// A frame laid down at `start` parses back to its value and end offset.
proof fn lemma_parse_frame_at(bytes: Seq<u8>, start: int, field: Seq<u8>)
    requires
        0 <= start,
        start + 8 + field.len() <= bytes.len(),
        bytes.subrange(start, start + 8 + field.len()) == framed(field),
        is_minimal_be(field),
        field.len() < 0x10000000000000000,
    ensures
        parse_frame(bytes, start) == Some((be_val(field), start + 8 + field.len() as int)),
{
    let w = bytes.subrange(start, start + 8 + field.len());
    let lenb = be64_bytes(field.len() as u64);
    assert(bytes.subrange(start, start + 8) =~= lenb) by {
        assert forall|i: int| 0 <= i < 8 implies bytes.subrange(start, start + 8)[i] == lenb[i] by {
            assert(w[i] == framed(field)[i]);
        }
    }
    lemma_be64_round_trip(field.len() as u64);
    assert(bytes.subrange(start + 8, start + 8 + field.len()) =~= field) by {
        assert forall|i: int| 0 <= i < field.len() implies bytes.subrange(
            start + 8,
            start + 8 + field.len(),
        )[i] == field[i] by {
            assert(bytes.subrange(start + 8, start + 8 + field.len())[i] == bytes[start + 8 + i]);
            assert(w[8 + i] == bytes[start + 8 + i]);
            assert(framed(field)[8 + i] == field[i]);
            assert(w[8 + i] == framed(field)[8 + i]);
        }
    }
}

/// The wire form round-trips: parsing the encoding of `(t, c, s)` gives
/// exactly those three values back. The length bounds are the format's own
/// limit: each field's byte length must fit its 8-byte prefix.
#[verifier::rlimit(50)]
pub proof fn lemma_wire_round_trip(t: nat, c: nat, s: nat)
    requires
        be_bytes_of(t).len() < 0x10000000000000000,
        be_bytes_of(c).len() < 0x10000000000000000,
        be_bytes_of(s).len() < 0x10000000000000000,
    ensures
        parse_wire(wire_form(t, c, s)) == Some((t, c, s)),
{
    let bt = be_bytes_of(t);
    let bc = be_bytes_of(c);
    let bs = be_bytes_of(s);
    let w = wire_form(t, c, s);
    lemma_be_bytes_minimal(t);
    lemma_be_bytes_minimal(c);
    lemma_be_bytes_minimal(s);
    lemma_be_round_trip(t);
    lemma_be_round_trip(c);
    lemma_be_round_trip(s);
    let f1 = framed(bt);
    let f2 = framed(bc);
    let f3 = framed(bs);
    let e1 = 8 + bt.len() as int;
    let e2 = e1 + 8 + bc.len();
    let e3 = e2 + 8 + bs.len();
    assert(w.len() == e3);
    assert(w.subrange(0, e1) =~= f1) by {
        assert forall|i: int| 0 <= i < e1 implies w.subrange(0, e1)[i] == f1[i] by {
            assert(w[i] == (f1 + f2)[i]);
            assert((f1 + f2)[i] == f1[i]);
        }
    }
    lemma_parse_frame_at(w, 0, bt);
    assert(w.subrange(e1, e2) =~= f2) by {
        assert forall|i: int| 0 <= i < e2 - e1 implies w.subrange(e1, e2)[i] == f2[i] by {
            assert(w.subrange(e1, e2)[i] == w[e1 + i]);
            assert(w[e1 + i] == (f1 + f2)[e1 + i]);
            assert((f1 + f2)[e1 + i] == f2[i]);
        }
    }
    lemma_parse_frame_at(w, e1, bc);
    assert(w.subrange(e2, e3) =~= f3) by {
        assert forall|i: int| 0 <= i < e3 - e2 implies w.subrange(e2, e3)[i] == f3[i] by {
            assert(w.subrange(e2, e3)[i] == w[e2 + i]);
            assert(w[e2 + i] == f3[e2 + i - (f1 + f2).len()]);
        }
    }
    lemma_parse_frame_at(w, e2, bs);
}

/// Reads the 8-byte big-endian value at `start`.
fn read_be64(bytes: &Vec<u8>, start: usize) -> (r: u64)
    requires
        start + 8 <= bytes.len(),
    ensures
        r as nat == be_val(bytes@.subrange(start as int, start as int + 8)),
{
    let b0 = bytes[start] as u64;
    let b1 = bytes[start + 1] as u64;
    let b2 = bytes[start + 2] as u64;
    let b3 = bytes[start + 3] as u64;
    let b4 = bytes[start + 4] as u64;
    let b5 = bytes[start + 5] as u64;
    let b6 = bytes[start + 6] as u64;
    let b7 = bytes[start + 7] as u64;
    let v = ((((((b0 * 256 + b1) * 256 + b2) * 256 + b3) * 256 + b4) * 256 + b5) * 256 + b6) * 256
        + b7;
    proof {
        let bv = bytes@;
        let st = start as int;
        assert(bv.subrange(st, st) =~= Seq::<u8>::empty());
        assert(be_val(Seq::<u8>::empty()) == 0);
        assert(bv.subrange(st, st + 1).drop_last() =~= bv.subrange(st, st));
        assert(bv.subrange(st, st + 2).drop_last() =~= bv.subrange(st, st + 1));
        assert(bv.subrange(st, st + 3).drop_last() =~= bv.subrange(st, st + 2));
        assert(bv.subrange(st, st + 4).drop_last() =~= bv.subrange(st, st + 3));
        assert(bv.subrange(st, st + 5).drop_last() =~= bv.subrange(st, st + 4));
        assert(bv.subrange(st, st + 6).drop_last() =~= bv.subrange(st, st + 5));
        assert(bv.subrange(st, st + 7).drop_last() =~= bv.subrange(st, st + 6));
        assert(bv.subrange(st, st + 8).drop_last() =~= bv.subrange(st, st + 7));
        assert(be_val(bv.subrange(st, st + 1)) == b0 as nat);
        assert(be_val(bv.subrange(st, st + 2)) == b0 as nat * 256 + b1 as nat);
        assert(be_val(bv.subrange(st, st + 3)) == be_val(bv.subrange(st, st + 2)) * 256
            + b2 as nat);
        assert(be_val(bv.subrange(st, st + 4)) == be_val(bv.subrange(st, st + 3)) * 256
            + b3 as nat);
        assert(be_val(bv.subrange(st, st + 5)) == be_val(bv.subrange(st, st + 4)) * 256
            + b4 as nat);
        assert(be_val(bv.subrange(st, st + 6)) == be_val(bv.subrange(st, st + 5)) * 256
            + b5 as nat);
        assert(be_val(bv.subrange(st, st + 7)) == be_val(bv.subrange(st, st + 6)) * 256
            + b6 as nat);
        assert(be_val(bv.subrange(st, st + 8)) == be_val(bv.subrange(st, st + 7)) * 256
            + b7 as nat);
    }
    v
}

/// Copies `bytes[start..end]` into a fresh vector.
fn copy_range(bytes: &Vec<u8>, start: usize, end: usize) -> (r: Vec<u8>)
    requires
        start <= end,
        end <= bytes.len(),
    ensures
        r@ == bytes@.subrange(start as int, end as int),
{
    let mut out: Vec<u8> = Vec::new();
    let mut i: usize = start;
    while i < end
        invariant
            start <= i <= end,
            end <= bytes.len(),
            out@ == bytes@.subrange(start as int, i as int),
        decreases end - i,
    {
        out.push(bytes[i]);
        assert(bytes@.subrange(start as int, i as int).push(bytes@[i as int]) =~= bytes@.subrange(
            start as int,
            i as int + 1,
        ));
        i = i + 1;
    }
    out
}

/// Reads the frame at `start`: its value and the offset just past it.
fn decode_frame(bytes: &Vec<u8>, start: usize) -> (r: Option<(Num, usize)>)
    ensures
        (r is Some) == (parse_frame(bytes@, start as int) is Some),
        r is Some ==> ((r->0).0)@ == (parse_frame(bytes@, start as int)->0).0,
        r is Some ==> ((r->0).1) as int == (parse_frame(bytes@, start as int)->0).1,
{
    if bytes.len() < 8 || start > bytes.len() - 8 {
        return None;
    }
    let flen64 = read_be64(bytes, start);
    let avail = bytes.len() - (start + 8);
    if flen64 > avail as u64 {
        return None;
    }
    let flen = flen64 as usize;
    if flen == 0 {
        return None;
    }
    if flen > 1 && bytes[start + 8] == 0 {
        return None;
    }
    let field = copy_range(bytes, start + 8, start + 8 + flen);
    let value = Num::from_bytes_be(&field);
    Some((value, start + 8 + flen))
}

/// One complete exchange: commitment, challenge and response.
pub struct ProofTranscript {
    pub t: Num,
    pub c: Num,
    pub s: Num,
}

impl ProofTranscript {
    /// Serializes the transcript into its wire form.
    pub fn encode(&self) -> (r: Vec<u8>)
        ensures
            r@ == wire_form(self.t@, self.c@, self.s@),
    {
        let mut out: Vec<u8> = Vec::new();
        let tb = self.t.to_bytes_be();
        push_be64(&mut out, tb.len() as u64);
        push_all(&mut out, &tb);
        let cb = self.c.to_bytes_be();
        push_be64(&mut out, cb.len() as u64);
        push_all(&mut out, &cb);
        let sb = self.s.to_bytes_be();
        push_be64(&mut out, sb.len() as u64);
        push_all(&mut out, &sb);
        assert(out@ =~= wire_form(self.t@, self.c@, self.s@));
        out
    }

    /// Deserializes a wire form: the transcript it carries, exactly when
    /// the bytes are one well-formed wire form and nothing else. Together
    /// with `lemma_wire_round_trip` this gives the exact round trip: what
    /// `encode` produces, `decode` accepts and maps back to the same three
    /// values.
    pub fn decode(bytes: &Vec<u8>) -> (r: Option<ProofTranscript>)
        ensures
            (r is Some) == (parse_wire(bytes@) is Some),
            r is Some ==> (r->0).t@ == (parse_wire(bytes@)->0).0,
            r is Some ==> (r->0).c@ == (parse_wire(bytes@)->0).1,
            r is Some ==> (r->0).s@ == (parse_wire(bytes@)->0).2,
    {
        let (t, o1) = match decode_frame(bytes, 0) {
            Some(f) => f,
            None => {
                return None;
            },
        };
        let (c, o2) = match decode_frame(bytes, o1) {
            Some(f) => f,
            None => {
                return None;
            },
        };
        let (s, o3) = match decode_frame(bytes, o2) {
            Some(f) => f,
            None => {
                return None;
            },
        };
        if o3 != bytes.len() {
            return None;
        }
        Some(ProofTranscript { t, c, s })
    }
}

} // verus!
