//! Properties that hold of every decode.
use vstd::prelude::*;
use crate::error::DecoderError;
use crate::semantics::{
    decode_record, decode_slot, decode_tuple, decode_value, empty_slots, fill, lemma_name_index,
    name_index, prepend, scan, unit_source,
};
use crate::shape::{Out, Shape};
use crate::value::Value;

verus! {

/// Every scalar decodes into the matching native shape as the same value,
/// and null decodes into any optional shape as `None`.
pub proof fn scalars_round_trip(b: bool, x: i32, y: i64, f: u64, s: String, inner: Shape, d: nat)
    requires
        d > 0,
    ensures
        decode_slot(Some(Value::Boolean(b)), Shape::Bool, d) == Ok::<Out, DecoderError>(Out::Bool(b)),
        decode_slot(Some(Value::I32(x)), Shape::I32, d) == Ok::<Out, DecoderError>(Out::I32(x)),
        decode_slot(Some(Value::I64(y)), Shape::I64, d) == Ok::<Out, DecoderError>(Out::I64(y)),
        decode_slot(Some(Value::FloatingPoint(f)), Shape::F64, d) == Ok::<Out, DecoderError>(Out::F64(f)),
        decode_slot(Some(Value::String(s)), Shape::Str, d) == Ok::<Out, DecoderError>(Out::Str(s)),
        decode_slot(Some(Value::Null), Shape::Unit, d) == Ok::<Out, DecoderError>(Out::Unit),
        decode_slot(Some(Value::Null), Shape::Optional(Box::new(inner)), d) == Ok::<Out, DecoderError>(Out::Nothing),
{
}

/// A fixed-length sequence decode whose elements all decode succeeds when
/// it reads the whole array, and otherwise reports how many were left.
pub proof fn sequence_length(ts: Seq<Shape>, items: Seq<Value>, d: nat)
    requires
        d > 0,
        ts.len() <= items.len(),
        forall|i: int| 0 <= i < ts.len() ==> (#[trigger] decode_value(ts[i], items[i], (d - 1) as nat)) is Ok,
    ensures
        ts.len() == items.len() ==> decode_tuple(ts, items, d) is Ok,
        ts.len() < items.len() ==> decode_tuple(ts, items, d) == Err::<Seq<Out>, DecoderError>(
            DecoderError::LengthMismatch((items.len() - ts.len()) as usize),
        ),
    decreases ts.len(),
{
    if ts.len() > 0 {
        assert forall|i: int| 0 <= i < ts.drop_first().len() implies (#[trigger] decode_value(
            ts.drop_first()[i],
            items.drop_first()[i],
            (d - 1) as nat,
        )) is Ok by {
            assert(decode_value(ts[i + 1], items[i + 1], (d - 1) as nat) is Ok);
        }
        sequence_length(ts.drop_first(), items.drop_first(), d);
        assert(decode_value(ts[0], items[0], (d - 1) as nat) is Ok);
    }
}

/// The error of a field default is always `EndOfStream`.
pub proof fn lemma_unit_source_error(shape: Shape)
    ensures
        unit_source(shape) is Err ==> unit_source(shape) == Err::<Out, DecoderError>(DecoderError::EndOfStream),
    decreases shape,
{
    if let Shape::Newtype(inner) = shape {
        lemma_unit_source_error(*inner);
    }
}

/// Reading entries never fills the slot of a field that none of them names.
pub proof fn lemma_scan_keeps_unnamed(
    fields: Seq<(String, Shape)>,
    es: Seq<(String, Value)>,
    slots: Seq<Option<Out>>,
    d: nat,
    j: int,
)
    requires
        0 <= j < fields.len(),
        slots.len() == fields.len(),
        slots[j] is None,
        forall|k: int| 0 <= k < es.len() ==> (#[trigger] es[k]).0@ != fields[j].0@,
    ensures
        scan(fields, es, slots, d) is Ok ==> scan(fields, es, slots, d)->Ok_0.len() == fields.len()
            && scan(fields, es, slots, d)->Ok_0[j] is None,
    decreases es.len(),
{
    if d > 0 && es.len() > 0 {
        lemma_name_index(fields, es[0].0@, 0);
        assert(es[0].0@ != fields[j].0@);
        if let Some(i) = name_index(fields, es[0].0@) {
            if let Ok(o) = decode_value(fields[i].1, es[0].1, (d - 1) as nat) {
                assert forall|k: int| 0 <= k < es.drop_first().len() implies (#[trigger] es.drop_first()[k]).0@
                    != fields[j].0@ by {
                    assert(es[k + 1].0@ != fields[j].0@);
                }
                lemma_scan_keeps_unnamed(fields, es.drop_first(), slots.update(i, Some(o)), d, j);
            }
        }
    }
}

/// Filling in the fields: an unread field takes its default, and the only
/// failure is `EndOfStream`, which comes whenever an unread field has none.
pub proof fn lemma_fill(fields: Seq<(String, Shape)>, slots: Seq<Option<Out>>, j: int)
    requires
        slots.len() == fields.len(),
        0 <= j < fields.len(),
        slots[j] is None,
    ensures
        fill(fields, slots) is Ok ==> fill(fields, slots)->Ok_0.len() == fields.len()
            && unit_source(fields[j].1) == Ok::<Out, DecoderError>(fill(fields, slots)->Ok_0[j]),
        fill(fields, slots) is Err ==> fill(fields, slots) == Err::<Seq<Out>, DecoderError>(DecoderError::EndOfStream),
        unit_source(fields[j].1) is Err ==> fill(fields, slots) is Err,
    decreases fields.len(),
{
    lemma_unit_source_error(fields[0].1);
    if j == 0 {
        if fields.len() > 1 {
            lemma_fill_shape(fields.drop_first(), slots.drop_first());
        } else {
            assert(fill(fields.drop_first(), slots.drop_first()) == Ok::<Seq<Out>, DecoderError>(Seq::empty()));
        }
    } else {
        lemma_fill(fields.drop_first(), slots.drop_first(), j - 1);
    }
}

/// Filling in the fields yields one value per field, or `EndOfStream`.
pub proof fn lemma_fill_shape(fields: Seq<(String, Shape)>, slots: Seq<Option<Out>>)
    requires
        slots.len() == fields.len(),
    ensures
        fill(fields, slots) is Ok ==> fill(fields, slots)->Ok_0.len() == fields.len(),
        fill(fields, slots) is Err ==> fill(fields, slots) == Err::<Seq<Out>, DecoderError>(DecoderError::EndOfStream),
    decreases fields.len(),
{
    if fields.len() > 0 {
        lemma_unit_source_error(fields[0].1);
        lemma_fill_shape(fields.drop_first(), slots.drop_first());
    }
}

/// A record field that the document never names is `None` when the field
/// is optional; when the field has no default, the decode fails, and with
/// `EndOfStream` once every named entry has decoded.
pub proof fn missing_field_defaults(fields: Seq<(String, Shape)>, es: Seq<(String, Value)>, d: nat, j: int)
    requires
        0 <= j < fields.len(),
        forall|k: int| 0 <= k < es.len() ==> (#[trigger] es[k]).0@ != fields[j].0@,
    ensures
        (fields[j].1 is Optional && decode_record(fields, es, d) is Ok) ==> decode_record(fields, es, d)
            == Ok::<Out, DecoderError>(Out::Record(decode_record(fields, es, d)->Ok_0->Record_0))
            && decode_record(fields, es, d)->Ok_0->Record_0[j] == Out::Nothing,
        unit_source(fields[j].1) is Err ==> decode_record(fields, es, d) is Err,
        (unit_source(fields[j].1) is Err && scan(fields, es, empty_slots(fields.len()), d) is Ok) ==> decode_record(
            fields,
            es,
            d,
        ) == Err::<Out, DecoderError>(DecoderError::EndOfStream),
{
    let start = empty_slots(fields.len());
    lemma_scan_keeps_unnamed(fields, es, start, d, j);
    if let Ok(slots) = scan(fields, es, start, d) {
        lemma_fill(fields, slots, j);
    }
}

/// Reading stops at the first key that names no field: what follows it has
/// no effect on the slots.
pub proof fn lemma_scan_truncates(
    fields: Seq<(String, Shape)>,
    es: Seq<(String, Value)>,
    slots: Seq<Option<Out>>,
    d: nat,
    m: int,
)
    requires
        0 <= m < es.len(),
        name_index(fields, es[m].0@) is None,
    ensures
        scan(fields, es, slots, d) == scan(fields, es.take(m), slots, d),
    decreases m,
{
    if d > 0 && m > 0 {
        assert(es.take(m)[0] == es[0]);
        assert(es.take(m).drop_first() =~= es.drop_first().take(m - 1));
        if let Some(i) = name_index(fields, es[0].0@) {
            if let Ok(o) = decode_value(fields[i].1, es[0].1, (d - 1) as nat) {
                lemma_scan_truncates(fields, es.drop_first(), slots.update(i, Some(o)), d, m - 1);
            }
        }
    }
}

/// A record decode ends at the first key that names no field: the entries
/// after it are never read, including entries for fields it has.
pub proof fn unknown_field_truncates(fields: Seq<(String, Shape)>, es: Seq<(String, Value)>, d: nat, m: int)
    requires
        0 <= m < es.len(),
        name_index(fields, es[m].0@) is None,
    ensures
        decode_record(fields, es, d) == decode_record(fields, es.take(m), d),
{
    lemma_scan_truncates(fields, es, empty_slots(fields.len()), d, m);
}

/// A domain-specific value decodes through its document form exactly as
/// that document does, for every shape that is not taken as it stands.
pub proof fn extended_decodes_as_document(shape: Shape, es: Vec<(String, Value)>, d: nat)
    requires
        !(shape is Any),
        !(shape is Optional),
        !(shape is Newtype),
        !(shape is Union),
    ensures
        decode_value(shape, Value::Extended(es), d) == decode_value(shape, Value::Document(es), d),
{
}

/// A decoder whose value was consumed, by a decode that succeeded or
/// failed, has nothing left: any further decode is `EndOfStream`.
pub proof fn spent_decoder_fails(shape: Shape, d: nat)
    ensures
        decode_slot(None, shape, d) == Err::<Out, DecoderError>(DecoderError::EndOfStream),
{
}

} // verus!
