use object_decode::compat::{assemble, decode_compatible, find_slot, resolve_slots};
use object_decode::context::{decode_value, ReadContext};
use object_decode::decode;
use object_decode::direct::{decode_consistent, decode_with_marker};
use object_decode::encode::{encode_record, encode_value};
use object_decode::model::{
    flag_byte, flag_of, DecodeError, FieldDescriptor, FieldMetadataRecord, FieldType, Mode,
    RefFlag, Value,
};
use object_decode::wire::Reader;

fn fd(name: &str, ty: FieldType) -> FieldDescriptor {
    FieldDescriptor::new(name.to_string(), ty)
}

fn not_null_byte() -> u8 {
    flag_byte(RefFlag::NotNullValue) as u8
}

fn compat_ctx(body: Vec<u8>, meta_index: i16, meta: Vec<FieldMetadataRecord>) -> ReadContext {
    let mut bytes = Vec::new();
    bytes.push(not_null_byte());
    let n = meta_index as u16;
    bytes.push((n % 256) as u8);
    bytes.push((n / 256) as u8);
    bytes.extend(body);
    ReadContext::new(bytes, meta, Mode::Compatible)
}

#[test]
fn round_trip_consistent_schema() {
    let values = vec![
        Value::I32(-123456),
        Value::Bool(true),
        Value::I16(-5),
        Value::I8(-128),
        Value::I32(2147483647),
    ];
    let fields = vec![
        fd("a", FieldType::I32),
        fd("b", FieldType::Bool),
        fd("c", FieldType::I16),
        fd("d", FieldType::I8),
        fd("e", FieldType::I32),
    ];
    let bytes = encode_record(&values);
    let mut ctx = ReadContext::new(bytes, Vec::new(), Mode::SchemaConsistent);
    let got = decode_consistent(&mut ctx, &fields).unwrap();
    assert_eq!(got, values);
}

#[test]
fn round_trip_empty_record() {
    let values: Vec<Value> = Vec::new();
    let fields: Vec<FieldDescriptor> = Vec::new();
    let bytes = encode_record(&values);
    assert_eq!(bytes.len(), 0);
    let mut ctx = ReadContext::new(bytes, Vec::new(), Mode::SchemaConsistent);
    let got = decode_consistent(&mut ctx, &fields).unwrap();
    assert_eq!(got, values);
}

#[test]
fn order_sensitivity_swapped_spans() {
    // Two i32 fields of the same type: swapping their byte spans must give a
    // structurally valid record with swapped values, not a decode failure.
    let fields = vec![fd("x", FieldType::I32), fd("y", FieldType::I32)];
    let straight = encode_record(&vec![Value::I32(3), Value::I32(7)]);
    let mut swapped = Vec::new();
    swapped.extend_from_slice(&straight[4..8]);
    swapped.extend_from_slice(&straight[0..4]);
    let mut ctx = ReadContext::new(swapped, Vec::new(), Mode::SchemaConsistent);
    let got = decode_consistent(&mut ctx, &fields).unwrap();
    assert_eq!(got, vec![Value::I32(7), Value::I32(3)]);
}

#[test]
fn compatible_reordering_concrete() {
    // Reader declares {x: i32, y: i32}; writer metadata lists [y, x]; the
    // stream carries y = 7 first, then x = 3. The result is {x: 3, y: 7}.
    let reader_fields = vec![fd("x", FieldType::I32), fd("y", FieldType::I32)];
    let writer = FieldMetadataRecord::new(vec![fd("y", FieldType::I32), fd("x", FieldType::I32)]);
    let mut body = Vec::new();
    encode_value(&Value::I32(7), &mut body);
    encode_value(&Value::I32(3), &mut body);
    let mut ctx = compat_ctx(body, 0, vec![writer]);
    let got = decode_compatible(&mut ctx, &reader_fields).unwrap();
    assert_eq!(got, vec![Value::I32(3), Value::I32(7)]);
}

#[test]
fn compatible_same_order() {
    let reader_fields = vec![fd("x", FieldType::I16), fd("y", FieldType::Bool)];
    let writer = FieldMetadataRecord::new(vec![fd("x", FieldType::I16), fd("y", FieldType::Bool)]);
    let mut body = Vec::new();
    encode_value(&Value::I16(-300), &mut body);
    encode_value(&Value::Bool(false), &mut body);
    let mut ctx = compat_ctx(body, 0, vec![writer]);
    let got = decode_compatible(&mut ctx, &reader_fields).unwrap();
    assert_eq!(got, vec![Value::I16(-300), Value::Bool(false)]);
}

#[test]
fn marker_null_yields_null_value() {
    // A lone Null marker, nothing after it: no field read is attempted.
    let bytes = vec![flag_byte(RefFlag::Null) as u8];
    let mut ctx = ReadContext::new(bytes, Vec::new(), Mode::Compatible);
    let fields = vec![fd("x", FieldType::I32)];
    assert_eq!(decode_compatible(&mut ctx, &fields), Err(DecodeError::NullValue));
}

#[test]
fn marker_ref_yields_unsupported_reference() {
    let bytes = vec![flag_byte(RefFlag::Ref) as u8];
    let mut ctx = ReadContext::new(bytes, Vec::new(), Mode::Compatible);
    let fields = vec![fd("x", FieldType::I32)];
    assert_eq!(decode_compatible(&mut ctx, &fields), Err(DecodeError::UnsupportedReference));
}

#[test]
fn marker_unrecognized_yields_bad_reference_marker() {
    let bytes = vec![7u8];
    let mut ctx = ReadContext::new(bytes, Vec::new(), Mode::Compatible);
    let fields = vec![fd("x", FieldType::I32)];
    assert_eq!(decode_compatible(&mut ctx, &fields), Err(DecodeError::BadReferenceMarker));
}

#[test]
fn marker_handling_in_consistent_mode() {
    let fields = vec![fd("x", FieldType::I8)];
    let mut ctx = ReadContext::new(vec![flag_byte(RefFlag::Null) as u8], Vec::new(), Mode::SchemaConsistent);
    assert_eq!(decode_with_marker(&mut ctx, &fields), Err(DecodeError::NullValue));
    let mut ctx = ReadContext::new(vec![flag_byte(RefFlag::Ref) as u8], Vec::new(), Mode::SchemaConsistent);
    assert_eq!(decode_with_marker(&mut ctx, &fields), Err(DecodeError::UnsupportedReference));
    let mut ctx = ReadContext::new(vec![42u8], Vec::new(), Mode::SchemaConsistent);
    assert_eq!(decode_with_marker(&mut ctx, &fields), Err(DecodeError::BadReferenceMarker));
}

#[test]
fn failure_atomicity_third_of_five() {
    // Five fields; the third is a Bool whose byte is neither 0 nor 1, so its
    // type decoder fails. The whole decode fails with FieldDecodeFailure and
    // no record is returned.
    let names = ["f1", "f2", "f3", "f4", "f5"];
    let tys = [FieldType::I8, FieldType::I8, FieldType::Bool, FieldType::I8, FieldType::I8];
    let reader_fields: Vec<FieldDescriptor> =
        names.iter().zip(tys.iter()).map(|(n, t)| fd(*n, *t)).collect();
    let writer_fields: Vec<FieldDescriptor> =
        names.iter().zip(tys.iter()).map(|(n, t)| fd(*n, *t)).collect();
    let writer = FieldMetadataRecord::new(writer_fields);
    let body = vec![1u8, 2u8, 9u8, 4u8, 5u8];
    let mut ctx = compat_ctx(body, 0, vec![writer]);
    let got = decode_compatible(&mut ctx, &reader_fields);
    assert_eq!(got, Err(DecodeError::FieldDecodeFailure));
}

#[test]
fn failure_atomicity_direct() {
    // Direct decoding of three i32 fields from a stream that holds only two
    // and a half of them fails as a whole.
    let fields = vec![fd("a", FieldType::I32), fd("b", FieldType::I32), fd("c", FieldType::I32)];
    let mut bytes = encode_record(&vec![Value::I32(1), Value::I32(2), Value::I32(3)]);
    bytes.truncate(10);
    let mut ctx = ReadContext::new(bytes, Vec::new(), Mode::SchemaConsistent);
    assert_eq!(decode_consistent(&mut ctx, &fields), Err(DecodeError::FieldDecodeFailure));
}

#[test]
fn missing_field_rejected() {
    // The writer metadata describes fewer fields than the reader declares:
    // the unset slot is never defaulted.
    let reader_fields = vec![fd("x", FieldType::I32), fd("y", FieldType::I32)];
    let writer = FieldMetadataRecord::new(vec![fd("x", FieldType::I32)]);
    let mut body = Vec::new();
    encode_value(&Value::I32(3), &mut body);
    let mut ctx = compat_ctx(body, 0, vec![writer]);
    assert_eq!(decode_compatible(&mut ctx, &reader_fields), Err(DecodeError::IncompleteRecord));
}

#[test]
fn unknown_metadata_index() {
    let reader_fields = vec![fd("x", FieldType::I32)];
    let mut ctx = compat_ctx(Vec::new(), 3, Vec::new());
    assert_eq!(decode_compatible(&mut ctx, &reader_fields), Err(DecodeError::UnknownMetadataIndex));
}

#[test]
fn negative_metadata_index() {
    let reader_fields = vec![fd("x", FieldType::I32)];
    let writer = FieldMetadataRecord::new(vec![fd("x", FieldType::I32)]);
    let mut bytes = Vec::new();
    bytes.push(not_null_byte());
    bytes.push(255u8);
    bytes.push(255u8);
    let mut ctx = ReadContext::new(bytes, vec![writer], Mode::Compatible);
    assert_eq!(decode_compatible(&mut ctx, &reader_fields), Err(DecodeError::UnknownMetadataIndex));
}

#[test]
fn schema_drift_unmatched_writer_field() {
    // A writer field whose name matches no reader slot fails loudly, before
    // any field byte is read.
    let reader_fields = vec![fd("x", FieldType::I32)];
    let writer = FieldMetadataRecord::new(vec![fd("z", FieldType::I32)]);
    let mut ctx = compat_ctx(Vec::new(), 0, vec![writer]);
    assert_eq!(
        decode_compatible(&mut ctx, &reader_fields),
        Err(DecodeError::UnsupportedSchemaDrift)
    );
}

#[test]
fn schema_drift_writer_has_more_fields() {
    let reader_fields = vec![fd("x", FieldType::I8), fd("y", FieldType::I8)];
    let writer = FieldMetadataRecord::new(vec![
        fd("x", FieldType::I8),
        fd("y", FieldType::I8),
        fd("z", FieldType::I8),
    ]);
    let mut ctx = compat_ctx(vec![1u8, 2u8, 3u8], 0, vec![writer]);
    assert_eq!(
        decode_compatible(&mut ctx, &reader_fields),
        Err(DecodeError::UnsupportedSchemaDrift)
    );
}

#[test]
fn truncated_stream_fails_field_decode() {
    let reader_fields = vec![fd("x", FieldType::I32)];
    let writer = FieldMetadataRecord::new(vec![fd("x", FieldType::I32)]);
    let mut ctx = compat_ctx(vec![1u8, 2u8], 0, vec![writer]);
    assert_eq!(decode_compatible(&mut ctx, &reader_fields), Err(DecodeError::FieldDecodeFailure));
}

#[test]
fn empty_stream_fails_marker_read() {
    let reader_fields = vec![fd("x", FieldType::I32)];
    let mut ctx = ReadContext::new(Vec::new(), Vec::new(), Mode::Compatible);
    assert_eq!(decode_compatible(&mut ctx, &reader_fields), Err(DecodeError::FieldDecodeFailure));
}

#[test]
fn dispatcher_selects_by_mode() {
    let fields = vec![fd("x", FieldType::I16)];
    // SchemaConsistent: marker, then the bare field bytes.
    let mut bytes = vec![not_null_byte()];
    encode_value(&Value::I16(258), &mut bytes);
    let mut ctx = ReadContext::new(bytes, Vec::new(), Mode::SchemaConsistent);
    assert_eq!(decode(&mut ctx, &fields), Ok(vec![Value::I16(258)]));
    // Compatible: marker, metadata index, then the field bytes.
    let writer = FieldMetadataRecord::new(vec![fd("x", FieldType::I16)]);
    let mut body = Vec::new();
    encode_value(&Value::I16(258), &mut body);
    let mut ctx = compat_ctx(body, 0, vec![writer]);
    assert_eq!(decode(&mut ctx, &fields), Ok(vec![Value::I16(258)]));
}

#[test]
fn scalar_wire_forms_are_little_endian() {
    assert_eq!(encode_record(&vec![Value::I16(258)]), vec![2u8, 1u8]);
    assert_eq!(encode_record(&vec![Value::I16(-2)]), vec![254u8, 255u8]);
    assert_eq!(encode_record(&vec![Value::I32(-2)]), vec![254u8, 255u8, 255u8, 255u8]);
    assert_eq!(
        encode_record(&vec![Value::I32(16909060)]),
        vec![4u8, 3u8, 2u8, 1u8]
    );
    assert_eq!(encode_record(&vec![Value::I8(-1)]), vec![255u8]);
    assert_eq!(encode_record(&vec![Value::Bool(true)]), vec![1u8]);
    assert_eq!(encode_record(&vec![Value::Bool(false)]), vec![0u8]);
}

#[test]
fn reader_reads_little_endian_scalars() {
    let mut r = Reader::new(vec![254u8, 255u8, 3u8]);
    assert_eq!(r.read_i16(), Some(-2i16));
    assert_eq!(r.read_i8(), Some(3i8));
    assert_eq!(r.read_i8(), None);
    let mut r = Reader::new(vec![0u8, 0u8, 0u8, 128u8]);
    assert_eq!(r.read_i32(), Some(i32::MIN));
    let mut r = Reader::new(vec![1u8, 2u8]);
    assert_eq!(r.read_i32(), None);
    assert_eq!(r.pos, 0);
}

#[test]
fn decode_value_reads_one_field() {
    let mut ctx = ReadContext::new(vec![5u8], Vec::new(), Mode::SchemaConsistent);
    assert_eq!(decode_value(&mut ctx, FieldType::I8), Ok(Value::I8(5)));
    let mut ctx = ReadContext::new(vec![2u8], Vec::new(), Mode::SchemaConsistent);
    assert_eq!(decode_value(&mut ctx, FieldType::Bool), Err(DecodeError::FieldDecodeFailure));
}

#[test]
fn flag_bytes_round_trip() {
    for f in [RefFlag::Null, RefFlag::Ref, RefFlag::NotNullValue, RefFlag::RefValue] {
        assert_eq!(flag_of(flag_byte(f)), Some(f));
    }
    assert_eq!(flag_byte(RefFlag::Null), -3);
    assert_eq!(flag_byte(RefFlag::Ref), -2);
    assert_eq!(flag_byte(RefFlag::NotNullValue), -1);
    assert_eq!(flag_byte(RefFlag::RefValue), 0);
    assert_eq!(flag_of(5), None);
}

#[test]
fn find_slot_returns_first_match() {
    let fields = vec![fd("a", FieldType::I8), fd("b", FieldType::I16), fd("b", FieldType::I32)];
    assert_eq!(find_slot(&fields, &"b".to_string()), Some(1));
    assert_eq!(find_slot(&fields, &"a".to_string()), Some(0));
    assert_eq!(find_slot(&fields, &"c".to_string()), None);
}

#[test]
fn resolve_slots_maps_writer_order_to_reader_slots() {
    let reader_fields = vec![fd("a", FieldType::I8), fd("b", FieldType::I16)];
    let writer = FieldMetadataRecord::new(vec![fd("b", FieldType::I16), fd("a", FieldType::I8)]);
    assert_eq!(resolve_slots(&reader_fields, &writer), Ok(vec![1, 0]));
    // Two writer fields claiming the same reader slot are schema drift.
    let dup = FieldMetadataRecord::new(vec![fd("a", FieldType::I8), fd("a", FieldType::I8)]);
    assert_eq!(resolve_slots(&reader_fields, &dup), Err(DecodeError::UnsupportedSchemaDrift));
}

#[test]
fn assemble_requires_every_slot_set() {
    let full = vec![Some(Value::I8(1)), Some(Value::Bool(true))];
    assert_eq!(assemble(&full), Ok(vec![Value::I8(1), Value::Bool(true)]));
    let gappy = vec![Some(Value::I8(1)), None];
    assert_eq!(assemble(&gappy), Err(DecodeError::IncompleteRecord));
}
