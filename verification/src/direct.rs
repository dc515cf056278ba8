//! The direct decoder: fields are read strictly in the reader's declaration
//! order, one per descriptor, with no metadata lookup and no per-field
//! bookkeeping. Used when writer and reader schemas are byte-compatible.

use vstd::prelude::*;

use crate::context::{decode_value, spec_decode_value, ReadContext};
use crate::model::{
    DecodeError, FieldDescriptor, FieldType, Value, NOT_NULL_VALUE_FLAG, NULL_FLAG, REF_FLAG,
    REF_VALUE_FLAG,
};
use crate::wire::spec_i8_of;

verus! {

/// The declared types of a field list, in declaration order.
pub open spec fn field_types(fields: Seq<FieldDescriptor>) -> Seq<FieldType> {
    Seq::new(fields.len(), |i: int| fields[i].ty)
}

/// What decoding one value per type, in order, yields on `bytes` starting at
/// `pos`: the values and the final position, or `None` as soon as any single
/// type decoder fails (first failure wins).
pub open spec fn spec_decode_fields(tys: Seq<FieldType>, bytes: Seq<u8>, pos: int) -> Option<
    (Seq<Value>, int),
>
    decreases tys.len(),
{
    if tys.len() == 0 {
        Some((Seq::empty(), pos))
    } else {
        match spec_decode_value(tys[0], bytes, pos) {
            None => None,
            Some(vp) => match spec_decode_fields(tys.drop_first(), bytes, vp.1) {
                None => None,
                Some(rest) => Some((seq![vp.0] + rest.0, rest.1)),
            },
        }
    }
}

/// Direct Decoder. Decodes exactly one value per reader field descriptor, in
/// declaration order, each via that field's type decoder, and assembles them
/// positionally. Performs no reference-marker handling (the caller has
/// already consumed any marker) and no self-validation of field identity.
/// The first failing field aborts the decode; no partial record is returned.
pub fn decode_consistent(ctx: &mut ReadContext, fields: &Vec<FieldDescriptor>) -> (r: Result<
    Vec<Value>,
    DecodeError,
>)
    requires
        old(ctx).wf(),
    ensures
        final(ctx).wf(),
        final(ctx).reader.bytes@ == old(ctx).reader.bytes@,
        final(ctx).meta@ == old(ctx).meta@,
        final(ctx).mode == old(ctx).mode,
        (match spec_decode_fields(field_types(fields@), old(ctx).reader.bytes@, old(ctx).reader.pos as int) {
            Some(vp) => r matches Ok(vals) && vals@ == vp.0 && final(ctx).reader.pos == vp.1,
            None => r == Err::<Vec<Value>, DecodeError>(DecodeError::FieldDecodeFailure),
        }),
{
    let ghost tys = field_types(fields@);
    let ghost bytes = ctx.reader.bytes@;
    let ghost pos0 = ctx.reader.pos as int;
    let n = fields.len();
    let mut out: Vec<Value> = Vec::new();
    let mut i: usize = 0;
    proof {
        assert(tys.subrange(0, n as int) =~= tys);
        assert forall|rest: (Seq<Value>, int)|
            spec_decode_fields(tys, bytes, pos0) == Some(rest) implies Some(
            (Seq::<Value>::empty() + rest.0, rest.1),
        ) == Some(rest) by {
            assert(Seq::<Value>::empty() + rest.0 =~= rest.0);
        }
    }
    while i < n
        invariant
            ctx.wf(),
            i <= n,
            n == fields@.len(),
            tys == field_types(fields@),
            bytes == ctx.reader.bytes@,
            bytes == old(ctx).reader.bytes@,
            pos0 == old(ctx).reader.pos as int,
            ctx.meta@ == old(ctx).meta@,
            ctx.mode == old(ctx).mode,
            out@.len() == i,
            spec_decode_fields(tys, bytes, pos0) == (match spec_decode_fields(
                tys.subrange(i as int, n as int),
                bytes,
                ctx.reader.pos as int,
            ) {
                None => None::<(Seq<Value>, int)>,
                Some(rest) => Some((out@ + rest.0, rest.1)),
            }),
        decreases n - i,
    {
        let ghost cur = ctx.reader.pos as int;
        let ghost mid = tys.subrange(i as int, n as int);
        proof {
            assert(mid[0] == tys[i as int]);
            assert(mid.drop_first() =~= tys.subrange(i + 1, n as int));
        }
        let ty = fields[i].ty;
        match decode_value(ctx, ty) {
            Err(e) => {
                proof {
                    assert(spec_decode_value(mid[0], bytes, cur) is None);
                    assert(spec_decode_fields(mid, bytes, cur) is None);
                }
                return Err(e);
            },
            Ok(v) => {
                let ghost old_out = out@;
                out.push(v);
                proof {
                    assert(spec_decode_value(mid[0], bytes, cur) == Some(
                        (v, ctx.reader.pos as int),
                    ));
                    assert forall|rest: (Seq<Value>, int)|
                        spec_decode_fields(
                            tys.subrange(i + 1, n as int),
                            bytes,
                            ctx.reader.pos as int,
                        ) == Some(rest) implies old_out + (seq![v] + rest.0) == out@ + rest.0 by {
                        assert(old_out + (seq![v] + rest.0) =~= out@ + rest.0);
                    }
                }
                i = i + 1;
            },
        }
    }
    proof {
        assert(tys.subrange(n as int, n as int) =~= Seq::<FieldType>::empty());
        assert(out@ + Seq::<Value>::empty() =~= out@);
    }
    Ok(out)
}

/// What the schema-consistent entry yields: the standard reference-marker
/// handling for the format, then the direct field sequence.
pub open spec fn spec_decode_with_marker(
    tys: Seq<FieldType>,
    bytes: Seq<u8>,
    pos: int,
) -> Result<(Seq<Value>, int), DecodeError> {
    if pos + 1 > bytes.len() {
        Err(DecodeError::FieldDecodeFailure)
    } else {
        let flag = spec_i8_of(bytes[pos]);
        if flag == NOT_NULL_VALUE_FLAG || flag == REF_VALUE_FLAG {
            match spec_decode_fields(tys, bytes, pos + 1) {
                None => Err(DecodeError::FieldDecodeFailure),
                Some(vp) => Ok(vp),
            }
        } else if flag == NULL_FLAG {
            Err(DecodeError::NullValue)
        } else if flag == REF_FLAG {
            Err(DecodeError::UnsupportedReference)
        } else {
            Err(DecodeError::BadReferenceMarker)
        }
    }
}

/// Schema-consistent entry point: consume one reference marker, then run the
/// Direct Decoder. A `Null` or `Ref` marker, or an unrecognized tag byte,
/// fails before any field is read.
pub fn decode_with_marker(ctx: &mut ReadContext, fields: &Vec<FieldDescriptor>) -> (r: Result<
    Vec<Value>,
    DecodeError,
>)
    requires
        old(ctx).wf(),
    ensures
        final(ctx).wf(),
        final(ctx).reader.bytes@ == old(ctx).reader.bytes@,
        final(ctx).meta@ == old(ctx).meta@,
        final(ctx).mode == old(ctx).mode,
        (match spec_decode_with_marker(
            field_types(fields@),
            old(ctx).reader.bytes@,
            old(ctx).reader.pos as int,
        ) {
            Ok(vp) => r matches Ok(vals) && vals@ == vp.0 && final(ctx).reader.pos == vp.1,
            Err(e) => r == Err::<Vec<Value>, DecodeError>(e),
        }),
{
    match ctx.reader.read_i8() {
        None => Err(DecodeError::FieldDecodeFailure),
        Some(flag) => {
            if flag == NOT_NULL_VALUE_FLAG || flag == REF_VALUE_FLAG {
                decode_consistent(ctx, fields)
            } else if flag == NULL_FLAG {
                Err(DecodeError::NullValue)
            } else if flag == REF_FLAG {
                Err(DecodeError::UnsupportedReference)
            } else {
                Err(DecodeError::BadReferenceMarker)
            }
        },
    }
}

} // verus!
