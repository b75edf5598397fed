//! A byte interchange format for named inputs.
//!
//! A named input is framed as: the UTF-8 byte length of the name as eight
//! little-endian bytes, the name's UTF-8 bytes, the number of field elements
//! as eight little-endian bytes, then each element as its byte length (eight
//! little-endian bytes) followed by its representation bytes. Decoding
//! either recovers exactly the encoded pair or rejects the buffer; the
//! round trip is proved in [`lemma_input_round_trip`].

use vstd::prelude::*;

use vstd::bytes::{
    lemma_auto_spec_u64_to_from_le_bytes, spec_u64_from_le_bytes, spec_u64_to_le_bytes,
    u64_from_le_bytes, u64_to_le_bytes,
};
use vstd::slice::{slice_subrange, slice_to_vec};
use vstd::utf8::{decode_utf8, encode_utf8, valid_utf8};

use crate::field::FieldElement;
use crate::input::CircomInput;

verus! {

/// The encoding of one field element: its byte length as eight
/// little-endian bytes, then its bytes.
pub open spec fn spec_encode_elem(e: Seq<u8>) -> Seq<u8> {
    spec_u64_to_le_bytes(e.len() as u64) + e
}

/// The concatenated encodings of a sequence of field elements.
pub open spec fn spec_encode_elems(es: Seq<Seq<u8>>) -> Seq<u8>
    decreases es.len(),
{
    if es.len() == 0 {
        Seq::empty()
    } else {
        spec_encode_elem(es.first()) + spec_encode_elems(es.drop_first())
    }
}

/// The encoding of a named input.
pub open spec fn spec_encode_input(name: Seq<char>, values: Seq<Seq<u8>>) -> Seq<u8> {
    let nb = encode_utf8(name);
    spec_u64_to_le_bytes(nb.len() as u64) + nb + spec_u64_to_le_bytes(values.len() as u64)
        + spec_encode_elems(values)
}

/// Parses `n` length-prefixed field elements from the front of `b`,
/// returning them and the unconsumed remainder.
pub open spec fn spec_decode_elems(b: Seq<u8>, n: nat) -> Option<(Seq<Seq<u8>>, Seq<u8>)>
    decreases n,
{
    if n == 0 {
        Some((Seq::empty(), b))
    } else if b.len() < 8 {
        None
    } else {
        let len = spec_u64_from_le_bytes(b.take(8)) as int;
        let rest = b.skip(8);
        if rest.len() < len {
            None
        } else {
            match spec_decode_elems(rest.skip(len), (n - 1) as nat) {
                Some(p) => Some((seq![rest.take(len)] + p.0, p.1)),
                None => None,
            }
        }
    }
}

/// Parses a whole buffer as one named input; every byte must be consumed.
pub open spec fn spec_decode_input(b: Seq<u8>) -> Option<(Seq<char>, Seq<Seq<u8>>)> {
    if b.len() < 8 {
        None
    } else {
        let nlen = spec_u64_from_le_bytes(b.take(8)) as int;
        let rest = b.skip(8);
        if rest.len() < nlen {
            None
        } else {
            let nb = rest.take(nlen);
            if !valid_utf8(nb) {
                None
            } else {
                let rest2 = rest.skip(nlen);
                if rest2.len() < 8 {
                    None
                } else {
                    let cnt = spec_u64_from_le_bytes(rest2.take(8));
                    match spec_decode_elems(rest2.skip(8), cnt as nat) {
                        Some(p) => if p.1.len() == 0 {
                            Some((decode_utf8(nb), p.0))
                        } else {
                            None
                        },
                        None => None,
                    }
                }
            }
        }
    }
}

/// Appending one element to a sequence appends its encoding.
proof fn lemma_encode_elems_push(es: Seq<Seq<u8>>, e: Seq<u8>)
    ensures
        spec_encode_elems(es.push(e)) == spec_encode_elems(es) + spec_encode_elem(e),
    decreases es.len(),
{
    if es.len() == 0 {
        assert(es.push(e).first() == e);
        assert(es.push(e).drop_first() =~= Seq::<Seq<u8>>::empty());
        assert(spec_encode_elems(Seq::<Seq<u8>>::empty()) == Seq::<u8>::empty());
        assert(spec_encode_elems(es.push(e)) == spec_encode_elem(e) + spec_encode_elems(
            es.push(e).drop_first(),
        ));
        assert(spec_encode_elems(es.push(e)) =~= spec_encode_elems(es) + spec_encode_elem(e));
    } else {
        assert(es.push(e).first() == es.first());
        assert(es.push(e).drop_first() =~= es.drop_first().push(e));
        lemma_encode_elems_push(es.drop_first(), e);
        assert(spec_encode_elems(es.push(e)) =~= spec_encode_elems(es) + spec_encode_elem(e));
    }
}

/// Decoding undoes encoding for a sequence of elements, leaving any trailing
/// bytes untouched. The length bounds say that each length fits the format's
/// 64-bit length fields.
proof fn lemma_elems_round_trip(es: Seq<Seq<u8>>, tail: Seq<u8>)
    requires
        es.len() <= u64::MAX,
        forall|i: int| 0 <= i < es.len() ==> (#[trigger] es[i]).len() <= u64::MAX,
    ensures
        spec_decode_elems(spec_encode_elems(es) + tail, es.len() as nat) == Some((es, tail)),
    decreases es.len(),
{
    lemma_auto_spec_u64_to_from_le_bytes();
    if es.len() == 0 {
        assert(spec_encode_elems(es) + tail =~= tail);
        assert(es =~= Seq::<Seq<u8>>::empty());
    } else {
        let e = es.first();
        let whole = spec_encode_elems(es) + tail;
        assert(whole =~= spec_u64_to_le_bytes(e.len() as u64) + (e + (spec_encode_elems(
            es.drop_first(),
        ) + tail)));
        assert(whole.take(8) =~= spec_u64_to_le_bytes(e.len() as u64));
        assert(spec_u64_from_le_bytes(whole.take(8)) == e.len() as u64);
        let rest = whole.skip(8);
        assert(rest =~= e + (spec_encode_elems(es.drop_first()) + tail));
        assert(rest.take(e.len() as int) =~= e);
        assert(rest.skip(e.len() as int) =~= spec_encode_elems(es.drop_first()) + tail);
        assert(forall|i: int|
            0 <= i < es.drop_first().len() ==> (#[trigger] es.drop_first()[i]).len()
                <= u64::MAX) by {
            assert(forall|i: int|
                0 <= i < es.drop_first().len() ==> es.drop_first()[i] == es[i + 1]);
        }
        lemma_elems_round_trip(es.drop_first(), tail);
        assert(seq![e] + es.drop_first() =~= es);
    }
}

/// The round trip: decoding the encoding of a named input yields exactly
/// the same name and the same value sequence. The bounds only say that the
/// name's UTF-8 length, the element count and each element's length fit the
/// format's 64-bit length fields.
pub proof fn lemma_input_round_trip(name: Seq<char>, values: Seq<Seq<u8>>)
    requires
        encode_utf8(name).len() <= u64::MAX,
        values.len() <= u64::MAX,
        forall|i: int| 0 <= i < values.len() ==> (#[trigger] values[i]).len() <= u64::MAX,
    ensures
        spec_decode_input(spec_encode_input(name, values)) == Some((name, values)),
{
    broadcast use vstd::utf8::encode_utf8_valid_utf8;
    broadcast use vstd::utf8::encode_utf8_decode_utf8;

    lemma_auto_spec_u64_to_from_le_bytes();
    let nb = encode_utf8(name);
    let whole = spec_encode_input(name, values);
    assert(whole =~= spec_u64_to_le_bytes(nb.len() as u64) + (nb + (spec_u64_to_le_bytes(
        values.len() as u64,
    ) + spec_encode_elems(values))));
    assert(whole.take(8) =~= spec_u64_to_le_bytes(nb.len() as u64));
    let rest = whole.skip(8);
    assert(rest =~= nb + (spec_u64_to_le_bytes(values.len() as u64) + spec_encode_elems(values)));
    assert(rest.take(nb.len() as int) =~= nb);
    let rest2 = rest.skip(nb.len() as int);
    assert(rest2 =~= spec_u64_to_le_bytes(values.len() as u64) + spec_encode_elems(values));
    assert(rest2.take(8) =~= spec_u64_to_le_bytes(values.len() as u64));
    assert(rest2.skip(8) =~= spec_encode_elems(values) + Seq::<u8>::empty());
    lemma_elems_round_trip(values, Seq::empty());
    assert(decode_utf8(nb) == name);
}

/// Relies on `String::from_utf8`: it succeeds exactly on valid UTF-8 and
/// yields the decoded characters, as `vstd`'s UTF-8 model states them.
#[verifier::external_body]
fn string_from_utf8(bytes: Vec<u8>) -> (r: Option<String>)
    ensures
        r matches Some(s) ==> valid_utf8(bytes@) && s@ == decode_utf8(bytes@),
        valid_utf8(bytes@) ==> r is Some,
{
    String::from_utf8(bytes).ok()
}

/// Reads the eight-byte little-endian word at `pos`.
fn read_u64(b: &Vec<u8>, pos: usize) -> (r: u64)
    requires
        pos + 8 <= b@.len(),
    ensures
        r == spec_u64_from_le_bytes(b@.subrange(pos as int, pos as int + 8)),
{
    let blen = b.len();
    proof {
        assert(pos + 8 <= blen);
    }
    u64_from_le_bytes(slice_subrange(b.as_slice(), pos, pos + 8))
}

impl CircomInput {
    /// Encodes this input into the byte interchange format.
    pub fn to_bytes(&self) -> (r: Vec<u8>)
        ensures
            r@ == spec_encode_input(self.name@, self.value.deep_view()),
    {
        let mut name_bytes = self.name.as_str().as_bytes_vec();
        let mut out = u64_to_le_bytes(name_bytes.len() as u64);
        out.append(&mut name_bytes);
        let mut cnt_bytes = u64_to_le_bytes(self.value.len() as u64);
        out.append(&mut cnt_bytes);
        let ghost vals = self.value.deep_view();
        let ghost header = out@;
        proof {
            assert(vals.len() == self.value@.len());
            assert(header =~= spec_u64_to_le_bytes(encode_utf8(self.name@).len() as u64)
                + encode_utf8(self.name@) + spec_u64_to_le_bytes(vals.len() as u64));
        }
        let mut i: usize = 0;
        while i < self.value.len()
            invariant
                i <= self.value@.len(),
                vals == self.value.deep_view(),
                vals.len() == self.value@.len(),
                out@ == header + spec_encode_elems(vals.take(i as int)),
            decreases self.value@.len() - i,
        {
            let elem = self.value[i].clone();
            let mut len_bytes = u64_to_le_bytes(elem.bytes.len() as u64);
            out.append(&mut len_bytes);
            let mut elem_bytes = elem.bytes;
            out.append(&mut elem_bytes);
            proof {
                assert(vals[i as int] == self.value@[i as int].deep_view());
                lemma_encode_elems_push(vals.take(i as int), vals[i as int]);
                assert(vals.take(i + 1) =~= vals.take(i as int).push(vals[i as int]));
                assert(out@ =~= header + spec_encode_elems(vals.take(i + 1)));
            }
            i = i + 1;
        }
        proof {
            assert(vals.take(vals.len() as int) =~= vals);
            assert(out@ =~= spec_encode_input(self.name@, vals));
        }
        out
    }

    /// Decodes a buffer produced by [`CircomInput::to_bytes`]. Returns
    /// `None` exactly when the buffer is not a complete, well-formed
    /// encoding of one named input.
    #[verifier::loop_isolation(false)]
    pub fn from_bytes(b: &Vec<u8>) -> (r: Option<CircomInput>)
        ensures
            match spec_decode_input(b@) {
                Some(m) => r matches Some(y) && y.name@ == m.0 && y.value.deep_view() == m.1,
                None => r is None,
            },
    {
        let n = b.len();
        if n < 8 {
            return None;
        }
        let nlen64 = read_u64(b, 0);
        proof {
            assert(b@.subrange(0, 8) =~= b@.take(8));
        }
        let ghost rest = b@.skip(8);
        if nlen64 > (n - 8) as u64 {
            proof {
                assert(rest.len() < nlen64 as int);
            }
            return None;
        }
        let nlen = nlen64 as usize;
        let name_vec = slice_to_vec(slice_subrange(b.as_slice(), 8, 8 + nlen));
        proof {
            assert(name_vec@ =~= rest.take(nlen64 as int));
        }
        let name = match string_from_utf8(name_vec) {
            Some(s) => s,
            None => {
                return None;
            },
        };
        let mut pos: usize = 8 + nlen;
        let ghost rest2 = rest.skip(nlen64 as int);
        proof {
            assert(rest2 =~= b@.skip(pos as int));
        }
        if n - pos < 8 {
            return None;
        }
        let cnt = read_u64(b, pos);
        proof {
            assert(b@.subrange(pos as int, pos as int + 8) =~= rest2.take(8));
        }
        pos = pos + 8;
        let ghost n0 = cnt as nat;
        let ghost start = pos as int;
        proof {
            assert(rest2.skip(8) =~= b@.skip(start));
        }
        let mut value: Vec<FieldElement> = Vec::new();
        let mut k: u64 = 0;
        proof {
            assert(value.deep_view() =~= Seq::<Seq<u8>>::empty());
            match spec_decode_elems(b@.skip(start), n0) {
                Some(p) => {
                    assert(Seq::<Seq<u8>>::empty() + p.0 =~= p.0);
                },
                None => {},
            }
        }
        while k < cnt
            invariant
                8 <= pos <= b@.len(),
                k <= cnt,
                n0 == cnt as nat,
                value@.len() == k,
                spec_decode_elems(b@.skip(start), n0) == (match spec_decode_elems(
                    b@.skip(pos as int),
                    (n0 - k as nat) as nat,
                ) {
                    Some(p) => Some::<(Seq<Seq<u8>>, Seq<u8>)>((value.deep_view() + p.0, p.1)),
                    None => None::<(Seq<Seq<u8>>, Seq<u8>)>,
                }),
            decreases cnt - k,
        {
            let remaining = b.len() - pos;
            if remaining < 8 {
                proof {
                    assert(b@.skip(pos as int).len() < 8);
                    assert(spec_decode_elems(b@.skip(pos as int), (n0 - k as nat) as nat)
                        is None);
                }
                return None;
            }
            let elen64 = read_u64(b, pos);
            let ghost cur = b@.skip(pos as int);
            proof {
                assert(b@.subrange(pos as int, pos as int + 8) =~= cur.take(8));
            }
            let after_len = pos + 8;
            if elen64 > (n - after_len) as u64 {
                proof {
                    assert(cur.skip(8).len() < elen64 as int);
                    assert(spec_decode_elems(cur, (n0 - k as nat) as nat) is None);
                }
                return None;
            }
            let elen = elen64 as usize;
            let elem_vec = slice_to_vec(slice_subrange(b.as_slice(), after_len, after_len + elen));
            proof {
                assert(elem_vec@ =~= cur.skip(8).take(elen64 as int));
            }
            let ghost old_value = value;
            value.push(FieldElement::new(elem_vec));
            pos = after_len + elen;
            k = k + 1;
            proof {
                let e = cur.skip(8).take(elen64 as int);
                assert(cur.skip(8).skip(elen64 as int) =~= b@.skip(pos as int));
                assert(value.deep_view() =~= old_value.deep_view().push(e));
                match spec_decode_elems(b@.skip(pos as int), (n0 - k as nat) as nat) {
                    Some(q) => {
                        assert(old_value.deep_view() + (seq![e] + q.0) =~= value.deep_view()
                            + q.0);
                    },
                    None => {},
                }
                assert(spec_decode_elems(b@.skip(start), n0) == (match spec_decode_elems(
                    b@.skip(pos as int),
                    (n0 - k as nat) as nat,
                ) {
                    Some(p) => Some::<(Seq<Seq<u8>>, Seq<u8>)>((value.deep_view() + p.0, p.1)),
                    None => None::<(Seq<Seq<u8>>, Seq<u8>)>,
                }));
            }
        }
        proof {
            assert(spec_decode_elems(b@.skip(pos as int), 0) == Some::<(Seq<Seq<u8>>, Seq<u8>)>(
                (Seq::empty(), b@.skip(pos as int)),
            ));
            assert(value.deep_view() + Seq::<Seq<u8>>::empty() =~= value.deep_view());
        }
        if pos != n {
            proof {
                assert(b@.skip(pos as int).len() > 0);
            }
            return None;
        }
        proof {
            assert(b@.skip(pos as int).len() == 0);
        }
        Some(CircomInput { name, value })
    }
}

} // verus!
