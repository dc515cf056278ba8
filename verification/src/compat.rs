//! The compatible decoder: reads an object-reference marker, resolves the
//! writer's field metadata record, resolves each writer field to the reader
//! slot with the matching name, decodes fields in writer order, and
//! assembles the record once every reader slot is populated.

use vstd::prelude::*;

use crate::context::{decode_value, spec_decode_value, ReadContext};
use crate::model::{
    DecodeError, FieldDescriptor, FieldMetadataRecord, Value, NOT_NULL_VALUE_FLAG, NULL_FLAG,
    REF_FLAG, REF_VALUE_FLAG,
};
use crate::wire::{spec_i8_of, spec_i16_of};

verus! {

/// The first position at or after `i` whose descriptor is named `name`, if
/// any.
pub open spec fn spec_find(fields: Seq<FieldDescriptor>, name: Seq<char>, i: int) -> Option<int>
    decreases fields.len() - i,
{
    if i < 0 || i >= fields.len() {
        None
    } else if fields[i].name@ == name {
        Some(i)
    } else {
        spec_find(fields, name, i + 1)
    }
}

/// A found slot index lies between the search start and the end of the list,
/// and its descriptor carries the searched name.
pub proof fn lemma_find_in_range(fields: Seq<FieldDescriptor>, name: Seq<char>, i: int, j: int)
    requires
        spec_find(fields, name, i) == Some(j),
    ensures
        i <= j < fields.len(),
        fields[j].name@ == name,
    decreases fields.len() - i,
{
    if !(i < 0 || i >= fields.len()) && fields[i].name@ != name {
        lemma_find_in_range(fields, name, i + 1, j);
    }
}

/// Find the reader slot whose field name matches `name`, scanning the
/// reader's declaration order from the front.
pub fn find_slot(fields: &Vec<FieldDescriptor>, name: &String) -> (r: Option<usize>)
    ensures
        (match spec_find(fields@, name@, 0) {
            Some(j) => r matches Some(u) && u as int == j,
            None => r is None,
        }),
{
    let n = fields.len();
    let mut i: usize = 0;
    while i < n
        invariant
            i <= n,
            n == fields@.len(),
            spec_find(fields@, name@, 0) == spec_find(fields@, name@, i as int),
        decreases n - i,
    {
        if fields[i].name == *name {
            return Some(i);
        }
        i = i + 1;
    }
    None
}

/// What resolving writer fields `w..` to reader slots yields, given the
/// slots `acc` already claimed by earlier writer fields: the full mapping in
/// writer order, or `UnsupportedSchemaDrift` for a writer field that matches
/// no reader slot or a slot an earlier writer field already claimed.
pub open spec fn spec_resolve(
    reader: Seq<FieldDescriptor>,
    writer: Seq<FieldDescriptor>,
    w: int,
    acc: Seq<int>,
) -> Result<Seq<int>, DecodeError>
    decreases writer.len() - w,
{
    if w < 0 || w >= writer.len() {
        Ok(acc)
    } else {
        match spec_find(reader, writer[w].name@, 0) {
            None => Err(DecodeError::UnsupportedSchemaDrift),
            Some(j) => if acc.contains(j) {
                Err(DecodeError::UnsupportedSchemaDrift)
            } else {
                spec_resolve(reader, writer, w + 1, acc.push(j))
            },
        }
    }
}

/// A resolved mapping extends the accumulator with one in-range slot index
/// per remaining writer field, and never repeats a slot.
pub proof fn lemma_resolve_entries(
    reader: Seq<FieldDescriptor>,
    writer: Seq<FieldDescriptor>,
    w: int,
    acc: Seq<int>,
    mm: Seq<int>,
)
    requires
        0 <= w <= writer.len(),
        spec_resolve(reader, writer, w, acc) == Ok::<Seq<int>, DecodeError>(mm),
        forall|k: int| 0 <= k < acc.len() ==> 0 <= #[trigger] acc[k] < reader.len(),
        acc.no_duplicates(),
    ensures
        mm.len() == acc.len() + writer.len() - w,
        forall|k: int| 0 <= k < mm.len() ==> 0 <= #[trigger] mm[k] < reader.len(),
        forall|k: int| 0 <= k < acc.len() ==> mm[k] == acc[k],
        mm.no_duplicates(),
    decreases writer.len() - w,
{
    if w < writer.len() {
        match spec_find(reader, writer[w].name@, 0) {
            None => {},
            Some(j) => {
                lemma_find_in_range(reader, writer[w].name@, 0, j);
                if !acc.contains(j) {
                    lemma_resolve_entries(reader, writer, w + 1, acc.push(j), mm);
                }
            },
        }
    }
}

/// Resolve every writer field, in writer order, to the reader slot with the
/// matching name. This happens before any field value is read, so a schema
/// drift the matching rule cannot express is rejected without touching the
/// stream.
pub fn resolve_slots(fields: &Vec<FieldDescriptor>, writer: &FieldMetadataRecord) -> (r: Result<
    Vec<usize>,
    DecodeError,
>)
    ensures
        (match spec_resolve(fields@, writer.fields@, 0, Seq::empty()) {
            Ok(mm) => r matches Ok(m) && m@.map_values(|u: usize| u as int) == mm,
            Err(e) => r == Err::<Vec<usize>, DecodeError>(e),
        }),
{
    let wn = writer.fields.len();
    let mut mapping: Vec<usize> = Vec::new();
    let mut w: usize = 0;
    proof {
        assert(mapping@.map_values(|u: usize| u as int) =~= Seq::<int>::empty());
    }
    while w < wn
        invariant
            w <= wn,
            wn == writer.fields@.len(),
            mapping@.len() == w,
            forall|k: int| 0 <= k < mapping@.len() ==> #[trigger] mapping@[k] < fields@.len(),
            spec_resolve(fields@, writer.fields@, 0, Seq::empty()) == spec_resolve(
                fields@,
                writer.fields@,
                w as int,
                mapping@.map_values(|u: usize| u as int),
            ),
        decreases wn - w,
    {
        let ghost acc = mapping@.map_values(|u: usize| u as int);
        match find_slot(fields, &writer.fields[w].name) {
            None => {
                return Err(DecodeError::UnsupportedSchemaDrift);
            },
            Some(j) => {
                proof {
                    lemma_find_in_range(fields@, writer.fields@[w as int].name@, 0, j as int);
                }
                let mut dup = false;
                let mut t: usize = 0;
                while t < w
                    invariant
                        t <= w,
                        w == mapping@.len(),
                        dup <==> exists|q: int| 0 <= q < t && mapping@[q] == j,
                    decreases w - t,
                {
                    if mapping[t] == j {
                        dup = true;
                    }
                    t = t + 1;
                }
                proof {
                    if acc.contains(j as int) {
                        let q = choose|q: int| 0 <= q < acc.len() && acc[q] == j as int;
                        assert(mapping@[q] == j);
                    }
                    if exists|q: int| 0 <= q < mapping@.len() && mapping@[q] == j {
                        let q = choose|q: int| 0 <= q < mapping@.len() && mapping@[q] == j;
                        assert(acc[q] == j as int);
                        assert(acc.contains(j as int));
                    }
                }
                if dup {
                    return Err(DecodeError::UnsupportedSchemaDrift);
                }
                mapping.push(j);
                proof {
                    assert(mapping@.map_values(|u: usize| u as int) =~= acc.push(j as int));
                }
                w = w + 1;
            },
        }
    }
    Ok(mapping)
}

/// What decoding writer fields `k..` of the mapping yields, threading the
/// field slot set and the stream position: each decoded value lands in the
/// reader slot the mapping names, and the first failing type decoder aborts
/// the whole object decode.
pub open spec fn spec_decode_slots(
    reader: Seq<FieldDescriptor>,
    mapping: Seq<int>,
    k: int,
    slots: Seq<Option<Value>>,
    bytes: Seq<u8>,
    pos: int,
) -> Result<(Seq<Option<Value>>, int), DecodeError>
    decreases mapping.len() - k,
{
    if k < 0 || k >= mapping.len() {
        Ok((slots, pos))
    } else {
        match spec_decode_value(reader[mapping[k]].ty, bytes, pos) {
            None => Err(DecodeError::FieldDecodeFailure),
            Some(vp) => spec_decode_slots(
                reader,
                mapping,
                k + 1,
                slots.update(mapping[k], Some(vp.0)),
                bytes,
                vp.1,
            ),
        }
    }
}

/// Every reader slot holds a value.
pub open spec fn all_slots_set(slots: Seq<Option<Value>>) -> bool {
    forall|i: int| 0 <= i < slots.len() ==> slots[i] is Some
}

/// What assembling the field slot set yields: the record, in reader slot
/// order, if every slot was populated; `IncompleteRecord` otherwise. No slot
/// is ever defaulted.
pub open spec fn spec_assemble(slots: Seq<Option<Value>>) -> Result<Seq<Value>, DecodeError> {
    if all_slots_set(slots) {
        Ok(Seq::new(slots.len(), |i: int| slots[i]->Some_0))
    } else {
        Err(DecodeError::IncompleteRecord)
    }
}

/// Assemble the record from the field slot set, validating that every slot
/// was populated.
pub fn assemble(slots: &Vec<Option<Value>>) -> (r: Result<Vec<Value>, DecodeError>)
    ensures
        (match spec_assemble(slots@) {
            Ok(vs) => r matches Ok(vals) && vals@ == vs,
            Err(e) => r == Err::<Vec<Value>, DecodeError>(e),
        }),
{
    let n = slots.len();
    let mut out: Vec<Value> = Vec::new();
    let mut i: usize = 0;
    while i < n
        invariant
            i <= n,
            n == slots@.len(),
            out@ == Seq::new(i as nat, |q: int| slots@[q]->Some_0),
            forall|q: int| 0 <= q < i ==> slots@[q] is Some,
        decreases n - i,
    {
        let s = slots[i];
        match s {
            None => {
                return Err(DecodeError::IncompleteRecord);
            },
            Some(v) => {
                out.push(v);
                proof {
                    assert(slots@[i as int] == Some(v));
                    assert(out@ =~= Seq::new((i + 1) as nat, |q: int| slots@[q]->Some_0));
                }
            },
        }
        i = i + 1;
    }
    Ok(out)
}

/// What the Compatible Decoder yields on `bytes` at `pos`, for a reader
/// field list and a table of writer metadata records: the record values in
/// reader order and the final position, or the error the stream forces.
pub open spec fn spec_decode_compatible(
    reader: Seq<FieldDescriptor>,
    table: Seq<FieldMetadataRecord>,
    bytes: Seq<u8>,
    pos: int,
) -> Result<(Seq<Value>, int), DecodeError> {
    if pos + 1 > bytes.len() {
        Err(DecodeError::FieldDecodeFailure)
    } else {
        let flag = spec_i8_of(bytes[pos]);
        if flag == NOT_NULL_VALUE_FLAG || flag == REF_VALUE_FLAG {
            if pos + 3 > bytes.len() {
                Err(DecodeError::FieldDecodeFailure)
            } else {
                let idx = spec_i16_of(bytes[pos + 1], bytes[pos + 2]);
                if idx < 0 || idx >= table.len() {
                    Err(DecodeError::UnknownMetadataIndex)
                } else {
                    match spec_resolve(reader, table[idx as int].fields@, 0, Seq::empty()) {
                        Err(e) => Err(e),
                        Ok(mapping) => match spec_decode_slots(
                            reader,
                            mapping,
                            0,
                            Seq::new(reader.len(), |i: int| None::<Value>),
                            bytes,
                            pos + 3,
                        ) {
                            Err(e) => Err(e),
                            Ok(sp) => match spec_assemble(sp.0) {
                                Err(e) => Err(e),
                                Ok(vs) => Ok((vs, sp.1)),
                            },
                        },
                    }
                }
            }
        } else if flag == NULL_FLAG {
            Err(DecodeError::NullValue)
        } else if flag == REF_FLAG {
            Err(DecodeError::UnsupportedReference)
        } else {
            Err(DecodeError::BadReferenceMarker)
        }
    }
}

/// Compatible Decoder. Self-contained: consumes one reference marker, reads
/// the metadata index, resolves writer fields to reader slots by name,
/// decodes each field in writer order via the matched reader field's type
/// decoder, and assembles the record once every reader slot is populated.
pub fn decode_compatible(ctx: &mut ReadContext, fields: &Vec<FieldDescriptor>) -> (r: Result<
    Vec<Value>,
    DecodeError,
>)
    requires
        old(ctx).wf(),
    ensures
        final(ctx).wf(),
        final(ctx).reader.bytes@ == old(ctx).reader.bytes@,
        final(ctx).meta@ == old(ctx).meta@,
        final(ctx).mode == old(ctx).mode,
        (match spec_decode_compatible(
            fields@,
            old(ctx).meta@,
            old(ctx).reader.bytes@,
            old(ctx).reader.pos as int,
        ) {
            Ok(vp) => r matches Ok(vals) && vals@ == vp.0 && final(ctx).reader.pos == vp.1,
            Err(e) => r == Err::<Vec<Value>, DecodeError>(e),
        }),
{
    let ghost bytes = ctx.reader.bytes@;
    let flag = match ctx.reader.read_i8() {
        None => {
            return Err(DecodeError::FieldDecodeFailure);
        },
        Some(f) => f,
    };
    if flag == NOT_NULL_VALUE_FLAG || flag == REF_VALUE_FLAG {
        let idx = match ctx.reader.read_i16() {
            None => {
                return Err(DecodeError::FieldDecodeFailure);
            },
            Some(v) => v,
        };
        if idx < 0 {
            return Err(DecodeError::UnknownMetadataIndex);
        }
        let iu = idx as usize;
        let ghost writer_fields = if (iu as int) < ctx.meta@.len() {
            ctx.meta@[iu as int].fields@
        } else {
            Seq::empty()
        };
        let mapping = match ctx.get_meta(iu) {
            None => {
                return Err(DecodeError::UnknownMetadataIndex);
            },
            Some(writer) => match resolve_slots(fields, writer) {
                Err(e) => {
                    return Err(e);
                },
                Ok(m) => m,
            },
        };
        let ghost mm = mapping@.map_values(|u: usize| u as int);
        proof {
            lemma_resolve_entries(fields@, writer_fields, 0, Seq::empty(), mm);
        }
        let ghost pos0 = old(ctx).reader.pos as int;
        let ghost gspec = spec_decode_compatible(fields@, old(ctx).meta@, bytes, pos0);
        let n = fields.len();
        let mut slots: Vec<Option<Value>> = Vec::new();
        let mut t: usize = 0;
        while t < n
            invariant
                t <= n,
                slots@.len() == t,
                forall|q: int| 0 <= q < t ==> slots@[q] is None,
            decreases n - t,
        {
            slots.push(None);
            t = t + 1;
        }
        proof {
            assert(slots@ =~= Seq::new(fields@.len(), |i: int| None::<Value>));
        }
        let ghost pos_start = ctx.reader.pos as int;
        let ghost init_slots = slots@;
        proof {
            assert(gspec == (match spec_decode_slots(fields@, mm, 0, init_slots, bytes, pos_start) {
                Err(e) => Err::<(Seq<Value>, int), DecodeError>(e),
                Ok(sp) => match spec_assemble(sp.0) {
                    Err(e) => Err(e),
                    Ok(vs) => Ok((vs, sp.1)),
                },
            }));
        }
        let wn = mapping.len();
        let mut k: usize = 0;
        while k < wn
            invariant
                ctx.wf(),
                k <= wn,
                wn == mapping@.len(),
                mm == mapping@.map_values(|u: usize| u as int),
                n == fields@.len(),
                slots@.len() == n,
                bytes == ctx.reader.bytes@,
                bytes == old(ctx).reader.bytes@,
                ctx.meta@ == old(ctx).meta@,
                ctx.mode == old(ctx).mode,
                gspec == spec_decode_compatible(
                    fields@,
                    old(ctx).meta@,
                    old(ctx).reader.bytes@,
                    old(ctx).reader.pos as int,
                ),
                forall|q: int| 0 <= q < mm.len() ==> 0 <= #[trigger] mm[q] < fields@.len(),
                gspec == (match spec_decode_slots(
                    fields@,
                    mm,
                    k as int,
                    slots@,
                    bytes,
                    ctx.reader.pos as int,
                ) {
                    Err(e) => Err::<(Seq<Value>, int), DecodeError>(e),
                    Ok(sp) => match spec_assemble(sp.0) {
                        Err(e) => Err(e),
                        Ok(vs) => Ok((vs, sp.1)),
                    },
                }),
            decreases wn - k,
        {
            let j = mapping[k];
            let ghost cur = ctx.reader.pos as int;
            let ghost pre_slots = slots@;
            proof {
                assert(mm[k as int] == j as int);
            }
            let ty = fields[j].ty;
            match decode_value(ctx, ty) {
                Err(e) => {
                    proof {
                        assert(spec_decode_slots(fields@, mm, k as int, pre_slots, bytes, cur)
                            == Err::<(Seq<Option<Value>>, int), DecodeError>(
                            DecodeError::FieldDecodeFailure,
                        ));
                    }
                    return Err(e);
                },
                Ok(v) => {
                    slots[j] = Some(v);
                    proof {
                        assert(slots@ == pre_slots.update(j as int, Some(v)));
                    }
                    k = k + 1;
                },
            }
        }
        assemble(&slots)
    } else if flag == NULL_FLAG {
        Err(DecodeError::NullValue)
    } else if flag == REF_FLAG {
        Err(DecodeError::UnsupportedReference)
    } else {
        Err(DecodeError::BadReferenceMarker)
    }
}

/// Marker handling: a stream whose marker byte is `Null` yields `NullValue`,
/// `Ref` yields `UnsupportedReference`, and a byte outside the four defined
/// markers yields `BadReferenceMarker` — in every case without reading any
/// metadata index or field, whatever bytes follow the marker.
pub proof fn lemma_marker_handling(
    reader: Seq<FieldDescriptor>,
    table: Seq<FieldMetadataRecord>,
    bytes: Seq<u8>,
    pos: int,
)
    requires
        0 <= pos < bytes.len(),
    ensures
        spec_i8_of(bytes[pos]) == NULL_FLAG ==> spec_decode_compatible(reader, table, bytes, pos)
            == Err::<(Seq<Value>, int), DecodeError>(DecodeError::NullValue),
        spec_i8_of(bytes[pos]) == REF_FLAG ==> spec_decode_compatible(reader, table, bytes, pos)
            == Err::<(Seq<Value>, int), DecodeError>(DecodeError::UnsupportedReference),
        crate::model::spec_flag_of(spec_i8_of(bytes[pos])) is None ==> spec_decode_compatible(
            reader,
            table,
            bytes,
            pos,
        ) == Err::<(Seq<Value>, int), DecodeError>(DecodeError::BadReferenceMarker),
{
}

/// How many slots of a field slot set hold a value.
pub open spec fn count_set(slots: Seq<Option<Value>>) -> int
    decreases slots.len(),
{
    if slots.len() == 0 {
        0
    } else {
        (if slots[0] is Some {
            1int
        } else {
            0int
        }) + count_set(slots.drop_first())
    }
}

/// Setting a previously unset slot raises the populated count by one.
pub proof fn lemma_count_update(slots: Seq<Option<Value>>, j: int, v: Value)
    requires
        0 <= j < slots.len(),
        slots[j] is None,
    ensures
        count_set(slots.update(j, Some(v))) == count_set(slots) + 1,
    decreases slots.len(),
{
    if j == 0 {
        assert(slots.update(0, Some(v)).drop_first() =~= slots.drop_first());
    } else {
        assert(slots.update(j, Some(v)).drop_first() =~= slots.drop_first().update(
            j - 1,
            Some(v),
        ));
        lemma_count_update(slots.drop_first(), j - 1, v);
    }
}

/// A fully populated slot set has as many values as slots.
pub proof fn lemma_count_all_set(slots: Seq<Option<Value>>)
    requires
        all_slots_set(slots),
    ensures
        count_set(slots) == slots.len(),
    decreases slots.len(),
{
    if slots.len() > 0 {
        assert(all_slots_set(slots.drop_first()));
        lemma_count_all_set(slots.drop_first());
    }
}

/// A slot set with no values populated counts zero.
pub proof fn lemma_count_none(slots: Seq<Option<Value>>)
    requires
        forall|q: int| 0 <= q < slots.len() ==> slots[q] is None,
    ensures
        count_set(slots) == 0,
    decreases slots.len(),
{
    if slots.len() > 0 {
        lemma_count_none(slots.drop_first());
    }
}

/// Decoding through a mapping whose remaining targets are all unset slots
/// populates exactly one more slot per writer field, and never changes the
/// number of slots.
pub proof fn lemma_decode_slots_count(
    reader: Seq<FieldDescriptor>,
    mapping: Seq<int>,
    k: int,
    slots: Seq<Option<Value>>,
    bytes: Seq<u8>,
    pos: int,
    out: Seq<Option<Value>>,
    p: int,
)
    requires
        0 <= k <= mapping.len(),
        forall|q: int| 0 <= q < mapping.len() ==> 0 <= #[trigger] mapping[q] < slots.len(),
        mapping.no_duplicates(),
        forall|q: int| k <= q < mapping.len() ==> slots[#[trigger] mapping[q]] is None,
        spec_decode_slots(reader, mapping, k, slots, bytes, pos) == Ok::<
            (Seq<Option<Value>>, int),
            DecodeError,
        >((out, p)),
    ensures
        out.len() == slots.len(),
        count_set(out) == count_set(slots) + mapping.len() - k,
    decreases mapping.len() - k,
{
    if k < mapping.len() {
        let j = mapping[k];
        match spec_decode_value(reader[j].ty, bytes, pos) {
            None => {},
            Some(vp) => {
                let slots2 = slots.update(j, Some(vp.0));
                lemma_count_update(slots, j, vp.0);
                assert forall|q: int| k + 1 <= q < mapping.len() implies slots2[#[trigger] mapping[q]]
                    is None by {
                    assert(mapping[q] != j);
                }
                lemma_decode_slots_count(reader, mapping, k + 1, slots2, bytes, vp.1, out, p);
            },
        }
    }
}

/// Missing-field rejection: when the writer's metadata describes fewer
/// fields than the reader's type declares, a compatible decode that gets as
/// far as assembly fails with `IncompleteRecord`; no slot is defaulted.
pub proof fn lemma_missing_field_rejection(
    reader: Seq<FieldDescriptor>,
    writer: Seq<FieldDescriptor>,
    mm: Seq<int>,
    bytes: Seq<u8>,
    pos: int,
    slots: Seq<Option<Value>>,
    p: int,
)
    requires
        writer.len() < reader.len(),
        spec_resolve(reader, writer, 0, Seq::empty()) == Ok::<Seq<int>, DecodeError>(mm),
        spec_decode_slots(
            reader,
            mm,
            0,
            Seq::new(reader.len(), |i: int| None::<Value>),
            bytes,
            pos,
        ) == Ok::<(Seq<Option<Value>>, int), DecodeError>((slots, p)),
    ensures
        spec_assemble(slots) == Err::<Seq<Value>, DecodeError>(DecodeError::IncompleteRecord),
{
    let init = Seq::new(reader.len(), |i: int| None::<Value>);
    lemma_resolve_entries(reader, writer, 0, Seq::empty(), mm);
    lemma_count_none(init);
    lemma_decode_slots_count(reader, mm, 0, init, bytes, pos, slots, p);
    assert(count_set(slots) == mm.len());
    if all_slots_set(slots) {
        lemma_count_all_set(slots);
    }
}

/// Compatible reordering: with a reader declaring fields `[a, b]` and writer
/// metadata listing `[b, a]`, the stream's first value is decoded with `b`'s
/// type and stored in slot `b`, the second with `a`'s type into slot `a`,
/// and assembly yields the record `[a-value, b-value]` regardless of the
/// physical byte order.
pub proof fn lemma_compatible_reordering(
    fa: FieldDescriptor,
    fb: FieldDescriptor,
    wa: FieldDescriptor,
    wb: FieldDescriptor,
    bytes: Seq<u8>,
    pos: int,
    vb: Value,
    p1: int,
    va: Value,
    p2: int,
)
    requires
        fa.name@ != fb.name@,
        wa.name@ == fa.name@,
        wb.name@ == fb.name@,
        spec_decode_value(fb.ty, bytes, pos) == Some((vb, p1)),
        spec_decode_value(fa.ty, bytes, p1) == Some((va, p2)),
    ensures
        spec_resolve(seq![fa, fb], seq![wb, wa], 0, Seq::empty()) == Ok::<Seq<int>, DecodeError>(
            seq![1int, 0int],
        ),
        spec_decode_slots(
            seq![fa, fb],
            seq![1int, 0int],
            0,
            seq![None, None],
            bytes,
            pos,
        ) == Ok::<(Seq<Option<Value>>, int), DecodeError>((seq![Some(va), Some(vb)], p2)),
        spec_assemble(seq![Some(va), Some(vb)]) == Ok::<Seq<Value>, DecodeError>(seq![va, vb]),
{
    let reader = seq![fa, fb];
    let writer = seq![wb, wa];
    assert(reader[0] == fa && reader[1] == fb && writer[0] == wb && writer[1] == wa);
    assert(spec_find(reader, wb.name@, 1) == Some(1int));
    assert(spec_find(reader, wb.name@, 0) == Some(1int));
    assert(spec_find(reader, wa.name@, 0) == Some(0int));
    let acc0 = Seq::<int>::empty();
    assert(!acc0.contains(1int));
    let acc1 = acc0.push(1int);
    assert(!acc1.contains(0int)) by {
        assert(acc1.len() == 1 && acc1[0] == 1int);
    }
    let acc2 = acc1.push(0int);
    assert(acc2 =~= seq![1int, 0int]);
    assert(spec_resolve(reader, writer, 2, acc2) == Ok::<Seq<int>, DecodeError>(acc2));
    assert(spec_resolve(reader, writer, 1, acc1) == Ok::<Seq<int>, DecodeError>(acc2));
    assert(spec_resolve(reader, writer, 0, acc0) == Ok::<Seq<int>, DecodeError>(acc2));
    let s0 = seq![None::<Value>, None::<Value>];
    let s1 = s0.update(1, Some(vb));
    let s2 = s1.update(0, Some(va));
    assert(acc2[0] == 1int && acc2[1] == 0int && acc2.len() == 2);
    assert(spec_decode_slots(reader, acc2, 2, s2, bytes, p2) == Ok::<
        (Seq<Option<Value>>, int),
        DecodeError,
    >((s2, p2)));
    assert(spec_decode_slots(reader, acc2, 1, s1, bytes, p1) == Ok::<
        (Seq<Option<Value>>, int),
        DecodeError,
    >((s2, p2)));
    assert(spec_decode_slots(reader, acc2, 0, s0, bytes, pos) == Ok::<
        (Seq<Option<Value>>, int),
        DecodeError,
    >((s2, p2)));
    assert(s2 =~= seq![Some(va), Some(vb)]);
    let vs = seq![Some(va), Some(vb)];
    assert(all_slots_set(vs)) by {
        assert(vs[0] is Some);
        assert(vs[1] is Some);
    }
    assert(Seq::new(vs.len(), |i: int| vs[i]->Some_0) =~= seq![va, vb]);
}

} // verus!
