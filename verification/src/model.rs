//! Shared data model: field types and values, field descriptors, writer
//! metadata records, decoding modes, reference markers, and error kinds.

use vstd::prelude::*;

verus! {

/// The declared type of a record field. Each field type resolves to one
/// fixed decoder for its little-endian wire form.
#[derive(Clone, Copy, PartialEq, Eq, Structural, Debug)]
pub enum FieldType {
    Bool,
    I8,
    I16,
    I32,
}

/// A decoded field value, tagged with its type.
#[derive(Clone, Copy, PartialEq, Eq, Structural, Debug)]
pub enum Value {
    Bool(bool),
    I8(i8),
    I16(i16),
    I32(i32),
}

/// The field type a given value belongs to.
pub open spec fn type_of(v: Value) -> FieldType {
    match v {
        Value::Bool(_) => FieldType::Bool,
        Value::I8(_) => FieldType::I8,
        Value::I16(_) => FieldType::I16,
        Value::I32(_) => FieldType::I32,
    }
}

/// A field's name and declared type, fixed at schema-definition time.
/// A record type is an ordered sequence of these, in declaration order.
#[derive(Debug)]
pub struct FieldDescriptor {
    pub name: String,
    pub ty: FieldType,
}

impl FieldDescriptor {
    pub fn new(name: String, ty: FieldType) -> (r: FieldDescriptor)
        ensures
            r.name@ == name@,
            r.ty == ty,
    {
        FieldDescriptor { name, ty }
    }
}

impl Clone for FieldDescriptor {
    fn clone(&self) -> (r: Self)
        ensures
            r.name@ == self.name@,
            r.ty == self.ty,
    {
        FieldDescriptor { name: self.name.clone(), ty: self.ty }
    }
}

/// The sequence of field descriptors as written by the producer of the byte
/// stream, in writer order. Looked up by an integer index carried inline in
/// the stream.
#[derive(Debug)]
pub struct FieldMetadataRecord {
    pub fields: Vec<FieldDescriptor>,
}

impl FieldMetadataRecord {
    pub fn new(fields: Vec<FieldDescriptor>) -> (r: FieldMetadataRecord)
        ensures
            r.fields@ == fields@,
    {
        FieldMetadataRecord { fields }
    }
}

/// The decoding mode, fixed for the duration of a decode session.
#[derive(Clone, Copy, PartialEq, Eq, Structural, Debug)]
pub enum Mode {
    /// Writer and reader schemas are known to be byte-compatible.
    SchemaConsistent,
    /// Writer and reader schemas may differ in field count or order.
    Compatible,
}

/// The reference marker read immediately before an object's body.
#[derive(Clone, Copy, PartialEq, Eq, Structural, Debug)]
pub enum RefFlag {
    NotNullValue,
    RefValue,
    Null,
    Ref,
}

pub const NULL_FLAG: i8 = -3;

pub const REF_FLAG: i8 = -2;

pub const NOT_NULL_VALUE_FLAG: i8 = -1;

pub const REF_VALUE_FLAG: i8 = 0;

/// Which reference marker a signed tag byte denotes, if any.
pub open spec fn spec_flag_of(b: i8) -> Option<RefFlag> {
    if b == NULL_FLAG {
        Some(RefFlag::Null)
    } else if b == REF_FLAG {
        Some(RefFlag::Ref)
    } else if b == NOT_NULL_VALUE_FLAG {
        Some(RefFlag::NotNullValue)
    } else if b == REF_VALUE_FLAG {
        Some(RefFlag::RefValue)
    } else {
        None
    }
}

/// Classify a signed tag byte as one of the four reference markers.
pub fn flag_of(b: i8) -> (r: Option<RefFlag>)
    ensures
        r == spec_flag_of(b),
{
    if b == NULL_FLAG {
        Some(RefFlag::Null)
    } else if b == REF_FLAG {
        Some(RefFlag::Ref)
    } else if b == NOT_NULL_VALUE_FLAG {
        Some(RefFlag::NotNullValue)
    } else if b == REF_VALUE_FLAG {
        Some(RefFlag::RefValue)
    } else {
        None
    }
}

/// The tag byte that encodes a reference marker on the wire.
pub fn flag_byte(f: RefFlag) -> (r: i8)
    ensures
        spec_flag_of(r) == Some(f),
{
    match f {
        RefFlag::Null => NULL_FLAG,
        RefFlag::Ref => REF_FLAG,
        RefFlag::NotNullValue => NOT_NULL_VALUE_FLAG,
        RefFlag::RefValue => REF_VALUE_FLAG,
    }
}

/// Everything that can go wrong while decoding one object. Every failure is
/// surfaced to the immediate caller; no partial record is ever returned.
#[derive(Clone, Copy, PartialEq, Eq, Structural, Debug)]
pub enum DecodeError {
    /// The reference marker indicated a null object.
    NullValue,
    /// The reference marker indicated a shared/back-reference, which this
    /// protocol layer does not resolve.
    UnsupportedReference,
    /// The marker byte was none of the four recognized values.
    BadReferenceMarker,
    /// The metadata index read from the stream had no corresponding record.
    UnknownMetadataIndex,
    /// A field's type decoder failed (truncated stream or malformed value).
    FieldDecodeFailure,
    /// One or more reader field slots remained unset after all writer fields
    /// were processed.
    IncompleteRecord,
    /// A writer field could not be matched to any reader slot, or matched a
    /// slot that an earlier writer field had already claimed.
    UnsupportedSchemaDrift,
}

} // verus!
