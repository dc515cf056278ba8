//! Decoding of structured objects (records with a fixed set of named, typed
//! fields) from a binary stream, tolerating schema drift between the writer
//! and the reader of the stream.
//!
//! Two strategies share one data model: a direct decoder that reads fields
//! strictly in the reader's declaration order, and a compatible decoder that
//! reads an object-reference marker, resolves the writer's field metadata,
//! decodes fields in writer order, and stores each value in the reader slot
//! with the matching name.

use vstd::prelude::*;

pub mod compat;
pub mod context;
pub mod direct;
pub mod encode;
pub mod model;
pub mod wire;

use crate::compat::{decode_compatible, spec_decode_compatible};
use crate::context::ReadContext;
use crate::direct::{decode_with_marker, field_types, spec_decode_with_marker};
use crate::model::{DecodeError, FieldDescriptor, FieldMetadataRecord, Mode, Value};

verus! {

/// What one full object decode yields under the given mode: the record
/// values in reader declaration order and the final stream position, or the
/// error the stream forces.
pub open spec fn spec_decode(
    mode: Mode,
    reader: Seq<FieldDescriptor>,
    table: Seq<FieldMetadataRecord>,
    bytes: Seq<u8>,
    pos: int,
) -> Result<(Seq<Value>, int), DecodeError> {
    match mode {
        Mode::SchemaConsistent => spec_decode_with_marker(field_types(reader), bytes, pos),
        Mode::Compatible => spec_decode_compatible(reader, table, bytes, pos),
    }
}

/// Mode Dispatcher: the recommended entry point. `SchemaConsistent` performs
/// the standard reference-marker handling and then the Direct Decoder;
/// `Compatible` runs the self-contained Compatible Decoder.
pub fn decode(ctx: &mut ReadContext, fields: &Vec<FieldDescriptor>) -> (r: Result<
    Vec<Value>,
    DecodeError,
>)
    requires
        old(ctx).wf(),
    ensures
        final(ctx).wf(),
        final(ctx).reader.bytes@ == old(ctx).reader.bytes@,
        final(ctx).meta@ == old(ctx).meta@,
        final(ctx).mode == old(ctx).mode,
        (match spec_decode(
            old(ctx).mode,
            fields@,
            old(ctx).meta@,
            old(ctx).reader.bytes@,
            old(ctx).reader.pos as int,
        ) {
            Ok(vp) => r matches Ok(vals) && vals@ == vp.0 && final(ctx).reader.pos == vp.1,
            Err(e) => r == Err::<Vec<Value>, DecodeError>(e),
        }),
{
    match ctx.mode {
        Mode::SchemaConsistent => decode_with_marker(ctx, fields),
        Mode::Compatible => decode_compatible(ctx, fields),
    }
}

} // verus!
