//! The wire form of values: what each value looks like as bytes, an encoder
//! that produces that form, and the proof that the direct decoder reads an
//! encoded record back unchanged.

use vstd::prelude::*;

use crate::context::{spec_decode_value, spec_value_width};
use crate::direct::spec_decode_fields;
use crate::model::{type_of, FieldType, Value};

verus! {

/// The little-endian two's-complement wire form of one value.
pub open spec fn spec_encode_value(v: Value) -> Seq<u8> {
    match v {
        Value::Bool(b) => seq![
            if b {
                1u8
            } else {
                0u8
            },
        ],
        Value::I8(x) => seq![
            if x >= 0 {
                x as u8
            } else {
                (x + 256) as u8
            },
        ],
        Value::I16(x) => {
            let n = if x >= 0 {
                x as int
            } else {
                x + 65536
            };
            seq![(n % 256) as u8, (n / 256) as u8]
        },
        Value::I32(x) => {
            let n = if x >= 0 {
                x as int
            } else {
                x + 4294967296
            };
            seq![
                (n % 256) as u8,
                ((n / 256) % 256) as u8,
                ((n / 65536) % 256) as u8,
                (n / 16777216) as u8,
            ]
        },
    }
}

/// The wire form of a record: each field's wire form, in order.
pub open spec fn spec_encode_fields(vs: Seq<Value>) -> Seq<u8>
    decreases vs.len(),
{
    if vs.len() == 0 {
        Seq::empty()
    } else {
        spec_encode_value(vs[0]) + spec_encode_fields(vs.drop_first())
    }
}

/// The field type of each value of a record, in order.
pub open spec fn value_types(vs: Seq<Value>) -> Seq<FieldType> {
    Seq::new(vs.len(), |i: int| type_of(vs[i]))
}

/// Append the wire form of one value.
pub fn encode_value(v: &Value, out: &mut Vec<u8>)
    requires
        old(out)@.len() + 4 <= usize::MAX,
    ensures
        final(out)@ == old(out)@ + spec_encode_value(*v),
{
    let ghost start = out@;
    match *v {
        Value::Bool(b) => {
            out.push(if b { 1 } else { 0 });
        },
        Value::I8(x) => {
            if x >= 0 {
                out.push(x as u8);
            } else {
                out.push(((x - i8::MIN) as u8) + 128);
            }
        },
        Value::I16(x) => {
            let n: u16 = if x >= 0 {
                x as u16
            } else {
                ((x - i16::MIN) as u16) + 32768
            };
            out.push((n % 256) as u8);
            out.push((n / 256) as u8);
        },
        Value::I32(x) => {
            let n: u32 = if x >= 0 {
                x as u32
            } else {
                ((x - i32::MIN) as u32) + 2147483648
            };
            out.push((n % 256) as u8);
            out.push(((n / 256) % 256) as u8);
            out.push(((n / 65536) % 256) as u8);
            out.push((n / 16777216) as u8);
        },
    }
    proof {
        assert(out@ =~= start + spec_encode_value(*v));
    }
}

/// Encode a whole record: each value's wire form, in declaration order.
pub fn encode_record(vs: &Vec<Value>) -> (r: Vec<u8>)
    requires
        vs@.len() * 4 + 4 <= usize::MAX,
    ensures
        r@ == spec_encode_fields(vs@),
{
    let n = vs.len();
    let mut out: Vec<u8> = Vec::new();
    let mut i: usize = 0;
    proof {
        assert(vs@.subrange(0, n as int) =~= vs@);
        assert(Seq::<u8>::empty() + spec_encode_fields(vs@) =~= spec_encode_fields(vs@));
    }
    while i < n
        invariant
            i <= n,
            n == vs@.len(),
            vs@.len() * 4 + 4 <= usize::MAX,
            out@.len() <= i * 4,
            spec_encode_fields(vs@) == out@ + spec_encode_fields(vs@.subrange(i as int, n as int)),
        decreases n - i,
    {
        let ghost mid = vs@.subrange(i as int, n as int);
        proof {
            assert(mid[0] == vs@[i as int]);
            assert(mid.drop_first() =~= vs@.subrange(i + 1, n as int));
        }
        let ghost before = out@;
        encode_value(&vs[i], &mut out);
        proof {
            assert(spec_encode_value(vs@[i as int]).len() <= 4);
            assert(before + (spec_encode_value(mid[0]) + spec_encode_fields(
                vs@.subrange(i + 1, n as int),
            )) =~= out@ + spec_encode_fields(vs@.subrange(i + 1, n as int)));
        }
        i = i + 1;
    }
    proof {
        assert(vs@.subrange(n as int, n as int) =~= Seq::<Value>::empty());
        assert(out@ + Seq::<u8>::empty() =~= out@);
    }
    out
}

/// A value's wire form occupies exactly the width of its type.
pub proof fn lemma_encode_width(v: Value)
    ensures
        spec_encode_value(v).len() == spec_value_width(type_of(v)),
{
}

/// Decoding a value's own wire form, wherever it stands in a stream, yields
/// that value back and stops just past it.
pub proof fn lemma_decode_encoded_value(v: Value, bytes: Seq<u8>, pos: int)
    requires
        0 <= pos,
        pos + spec_encode_value(v).len() <= bytes.len(),
        bytes.subrange(pos, pos + spec_encode_value(v).len()) == spec_encode_value(v),
    ensures
        spec_decode_value(type_of(v), bytes, pos) == Some((v, pos + spec_value_width(type_of(v)))),
{
    let enc = spec_encode_value(v);
    let w = spec_value_width(type_of(v));
    assert forall|k: int| 0 <= k < w implies bytes[pos + k] == enc[k] by {
        assert(enc[k] == bytes.subrange(pos, pos + enc.len())[k]);
        assert(bytes.subrange(pos, pos + enc.len())[k] == bytes[pos + k]);
    }
    assert(bytes[pos] == enc[0]) by {
        assert(bytes[pos + 0] == enc[0]);
    }
    match v {
        Value::Bool(b) => {},
        Value::I8(x) => {},
        Value::I16(x) => {
            assert(bytes[pos + 1] == enc[1]);
            let n = if x >= 0 {
                x as int
            } else {
                x + 65536
            };
            vstd::arithmetic::div_mod::lemma_fundamental_div_mod(n, 256);
        },
        Value::I32(x) => {
            assert(bytes[pos + 1] == enc[1]);
            assert(bytes[pos + 2] == enc[2]);
            assert(bytes[pos + 3] == enc[3]);
            let n = if x >= 0 {
                x as int
            } else {
                x + 4294967296
            };
            vstd::arithmetic::div_mod::lemma_fundamental_div_mod(n, 256);
            vstd::arithmetic::div_mod::lemma_fundamental_div_mod(n / 256, 256);
            vstd::arithmetic::div_mod::lemma_fundamental_div_mod(n / 65536, 256);
            assert((n / 256) / 256 == n / 65536) by {
                vstd::arithmetic::div_mod::lemma_div_denominator(n, 256, 256);
            }
            assert((n / 65536) / 256 == n / 16777216) by {
                vstd::arithmetic::div_mod::lemma_div_denominator(n, 65536, 256);
            }
        },
    }
}

/// Decoding a record's own wire form, wherever it stands in a stream, with
/// one type decoder per value in order, yields the record back.
pub proof fn lemma_decode_encoded_fields(vs: Seq<Value>, bytes: Seq<u8>, pos: int)
    requires
        0 <= pos,
        pos + spec_encode_fields(vs).len() <= bytes.len(),
        bytes.subrange(pos, pos + spec_encode_fields(vs).len()) == spec_encode_fields(vs),
    ensures
        spec_decode_fields(value_types(vs), bytes, pos) == Some(
            (vs, pos + spec_encode_fields(vs).len()),
        ),
    decreases vs.len(),
{
    let tys = value_types(vs);
    let enc = spec_encode_fields(vs);
    if vs.len() == 0 {
        assert(tys.len() == 0);
    } else {
        let v0 = vs[0];
        let e0 = spec_encode_value(v0);
        let rest = spec_encode_fields(vs.drop_first());
        assert(enc == e0 + rest);
        lemma_encode_width(v0);
        assert(bytes.subrange(pos, pos + e0.len()) =~= e0) by {
            assert forall|k: int| 0 <= k < e0.len() implies bytes.subrange(
                pos,
                pos + e0.len(),
            )[k] == e0[k] by {
                assert(bytes.subrange(pos, pos + enc.len())[k] == bytes[pos + k]);
                assert((e0 + rest)[k] == e0[k]);
            }
        }
        lemma_decode_encoded_value(v0, bytes, pos);
        assert(tys[0] == type_of(v0));
        let pos1 = pos + e0.len();
        assert(bytes.subrange(pos1, pos1 + rest.len()) =~= rest) by {
            assert forall|k: int| 0 <= k < rest.len() implies bytes.subrange(
                pos1,
                pos1 + rest.len(),
            )[k] == rest[k] by {
                assert(bytes.subrange(pos, pos + enc.len())[e0.len() + k] == bytes[pos1 + k]);
                assert((e0 + rest)[e0.len() + k] == rest[k]);
            }
        }
        lemma_decode_encoded_fields(vs.drop_first(), bytes, pos1);
        assert(value_types(vs.drop_first()) =~= tys.drop_first());
        assert(seq![v0] + vs.drop_first() =~= vs);
    }
}

/// Round trip under a consistent schema: for any record value, of any field
/// count, encoding and then decoding with the Direct Decoder yields the
/// record back, whatever bytes follow it in the stream.
pub proof fn lemma_direct_round_trip(vs: Seq<Value>, rest: Seq<u8>)
    ensures
        spec_decode_fields(value_types(vs), spec_encode_fields(vs) + rest, 0) == Some(
            (vs, spec_encode_fields(vs).len() as int),
        ),
{
    let enc = spec_encode_fields(vs);
    assert((enc + rest).subrange(0, enc.len() as int) =~= enc);
    lemma_decode_encoded_fields(vs, enc + rest, 0);
}

} // verus!
