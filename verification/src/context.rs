//! The read context owned by one decode call chain, and the per-field type
//! decoder that both decoding strategies invoke.

use vstd::prelude::*;

use crate::model::{DecodeError, FieldMetadataRecord, FieldType, Mode, Value};
use crate::wire::{spec_i8_of, spec_i16_of, spec_i32_of, Reader};

verus! {

/// Everything one decode call chain owns: the stream cursor, the table of
/// writer field-metadata records, and the active decoding mode. Never shared
/// across concurrent decodes.
pub struct ReadContext {
    pub reader: Reader,
    pub meta: Vec<FieldMetadataRecord>,
    pub mode: Mode,
}

impl ReadContext {
    pub open spec fn wf(self) -> bool {
        self.reader.wf()
    }

    pub fn new(bytes: Vec<u8>, meta: Vec<FieldMetadataRecord>, mode: Mode) -> (r: ReadContext)
        ensures
            r.wf(),
            r.reader.bytes@ == bytes@,
            r.reader.pos == 0,
            r.meta@ == meta@,
            r.mode == mode,
    {
        ReadContext { reader: Reader::new(bytes), meta, mode }
    }

    /// The writer metadata record at `index`, or `None` for an index the
    /// table does not cover.
    pub fn get_meta(&self, index: usize) -> (r: Option<&FieldMetadataRecord>)
        ensures
            if index < self.meta@.len() {
                r matches Some(m) && m == &self.meta@[index as int]
            } else {
                r is None
            },
    {
        if index < self.meta.len() {
            Some(&self.meta[index])
        } else {
            None
        }
    }
}

/// How many bytes the wire form of a value of type `ty` occupies.
pub open spec fn spec_value_width(ty: FieldType) -> int {
    match ty {
        FieldType::Bool => 1,
        FieldType::I8 => 1,
        FieldType::I16 => 2,
        FieldType::I32 => 4,
    }
}

/// What one type decoder yields on `bytes` at `pos`: the decoded value and
/// the position just past its wire form, or `None` if the stream is
/// truncated or the bytes are malformed for `ty`.
pub open spec fn spec_decode_value(ty: FieldType, bytes: Seq<u8>, pos: int) -> Option<(Value, int)> {
    if pos + spec_value_width(ty) <= bytes.len() {
        match ty {
            FieldType::Bool => if bytes[pos] == 0 {
                Some((Value::Bool(false), pos + 1))
            } else if bytes[pos] == 1 {
                Some((Value::Bool(true), pos + 1))
            } else {
                None
            },
            FieldType::I8 => Some((Value::I8(spec_i8_of(bytes[pos])), pos + 1)),
            FieldType::I16 => Some((Value::I16(spec_i16_of(bytes[pos], bytes[pos + 1])), pos + 2)),
            FieldType::I32 => Some(
                (Value::I32(spec_i32_of(bytes[pos], bytes[pos + 1], bytes[pos + 2], bytes[pos + 3])), pos + 4),
            ),
        }
    } else {
        None
    }
}

/// The type decoder capability: decode one value of type `ty` from the
/// context's stream. On failure the cursor is unmoved and the stream is no
/// longer trustworthy; the caller aborts the enclosing object decode.
pub fn decode_value(ctx: &mut ReadContext, ty: FieldType) -> (r: Result<Value, DecodeError>)
    requires
        old(ctx).wf(),
    ensures
        final(ctx).wf(),
        final(ctx).reader.bytes@ == old(ctx).reader.bytes@,
        final(ctx).meta@ == old(ctx).meta@,
        final(ctx).mode == old(ctx).mode,
        (match spec_decode_value(ty, old(ctx).reader.bytes@, old(ctx).reader.pos as int) {
            Some(vp) => r == Ok::<Value, DecodeError>(vp.0) && final(ctx).reader.pos == vp.1,
            None => r == Err::<Value, DecodeError>(DecodeError::FieldDecodeFailure)
                && final(ctx).reader.pos == old(ctx).reader.pos,
        }),
{
    match ty {
        FieldType::Bool => {
            if ctx.reader.pos < ctx.reader.bytes.len() {
                let b = ctx.reader.bytes[ctx.reader.pos];
                if b == 0 {
                    ctx.reader.pos = ctx.reader.pos + 1;
                    Ok(Value::Bool(false))
                } else if b == 1 {
                    ctx.reader.pos = ctx.reader.pos + 1;
                    Ok(Value::Bool(true))
                } else {
                    Err(DecodeError::FieldDecodeFailure)
                }
            } else {
                Err(DecodeError::FieldDecodeFailure)
            }
        },
        FieldType::I8 => {
            match ctx.reader.read_i8() {
                Some(v) => Ok(Value::I8(v)),
                None => Err(DecodeError::FieldDecodeFailure),
            }
        },
        FieldType::I16 => {
            match ctx.reader.read_i16() {
                Some(v) => Ok(Value::I16(v)),
                None => Err(DecodeError::FieldDecodeFailure),
            }
        },
        FieldType::I32 => {
            match ctx.reader.read_i32() {
                Some(v) => Ok(Value::I32(v)),
                None => Err(DecodeError::FieldDecodeFailure),
            }
        },
    }
}

} // verus!
