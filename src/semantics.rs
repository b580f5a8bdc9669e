//! What decoding a value into a shape yields, stated as spec functions.
use vstd::prelude::*;
use crate::error::DecoderError;
use crate::shape::{Out, Shape};
use crate::value::Value;

verus! {

/// `Ok(prefix + rest)` where `r` is `Ok(rest)`; `r`'s error otherwise.
pub open spec fn prepend(prefix: Seq<Out>, r: Result<Seq<Out>, DecoderError>) -> Result<
    Seq<Out>,
    DecoderError,
> {
    match r {
        Ok(rest) => Ok(prefix + rest),
        Err(e) => Err(e),
    }
}

/// The index of the first entry of `names` whose name is `k`, searching from `i`.
pub open spec fn name_index_from(names: Seq<(String, Shape)>, k: Seq<char>, i: int) -> Option<int>
    decreases names.len() - i,
{
    if i < 0 || i >= names.len() {
        None
    } else if names[i].0@ == k {
        Some(i)
    } else {
        name_index_from(names, k, i + 1)
    }
}

/// The index of the first entry of `names` whose name is `k`.
pub open spec fn name_index(names: Seq<(String, Shape)>, k: Seq<char>) -> Option<int> {
    name_index_from(names, k, 0)
}

/// What a shape makes of a unit value offered in place of content.
pub open spec fn unit_offer(shape: Shape) -> Result<Out, DecoderError> {
    match shape {
        Shape::Unit => Ok(Out::Unit),
        Shape::List(_) => Ok(Out::List(Seq::empty())),
        Shape::Tuple(ts) => if ts@.len() == 0 {
            Ok(Out::List(Seq::empty()))
        } else {
            Err(DecoderError::Syntax)
        },
        _ => Err(DecoderError::Syntax),
    }
}

/// What a record field that the source never named defaults to: unit-like
/// and optional shapes take their empty value, and every other shape fails as
/// a field that is required and missing.
pub open spec fn unit_source(shape: Shape) -> Result<Out, DecoderError>
    decreases shape,
{
    match shape {
        Shape::Optional(_) => Ok(Out::Nothing),
        Shape::Newtype(inner) => unit_source(*inner),
        Shape::Any => Ok(Out::Dynamic(Value::Null)),
        _ => match unit_offer(shape) {
            Ok(o) => Ok(o),
            Err(_) => Err(DecoderError::EndOfStream),
        },
    }
}

/// Decoding the content of a slot: an empty slot has nothing left to give.
pub open spec fn decode_slot(slot: Option<Value>, shape: Shape, d: nat) -> Result<Out, DecoderError> {
    match slot {
        None => Err(DecoderError::EndOfStream),
        Some(v) => decode_value(shape, v, d),
    }
}

/// Decoding value `v` into `shape`, with at most `d` levels of nesting.
pub open spec fn decode_value(shape: Shape, v: Value, d: nat) -> Result<Out, DecoderError>
    decreases d, 4nat, 0nat,
{
    if d == 0 {
        Err(DecoderError::DepthLimit)
    } else {
        match shape {
            Shape::Any => Ok(Out::Dynamic(v)),
            Shape::Optional(inner) => if v is Null {
                Ok(Out::Nothing)
            } else {
                match decode_value(*inner, v, (d - 1) as nat) {
                    Ok(o) => Ok(Out::Just(Box::new(o))),
                    Err(e) => Err(e),
                }
            },
            Shape::Newtype(inner) => decode_value(*inner, v, (d - 1) as nat),
            Shape::Union(variants) => decode_union(variants@, v, d),
            _ => match v {
                Value::Null => unit_offer(shape),
                Value::Boolean(b) => if shape is Bool {
                    Ok(Out::Bool(b))
                } else {
                    Err(DecoderError::Syntax)
                },
                Value::I32(x) => match shape {
                    Shape::I32 => Ok(Out::I32(x)),
                    Shape::I64 => Ok(Out::I64(x as i64)),
                    _ => Err(DecoderError::Syntax),
                },
                Value::I64(x) => if shape is I64 {
                    Ok(Out::I64(x))
                } else {
                    Err(DecoderError::Syntax)
                },
                Value::FloatingPoint(x) => if shape is F64 {
                    Ok(Out::F64(x))
                } else {
                    Err(DecoderError::Syntax)
                },
                Value::String(s) => if shape is Str {
                    Ok(Out::Str(s))
                } else {
                    Err(DecoderError::Syntax)
                },
                Value::Array(items) => if items@.len() == 0 {
                    unit_offer(shape)
                } else {
                    decode_seq(shape, items@, d)
                },
                Value::Document(es) => decode_map(shape, es@, d),
                Value::Extended(es) => decode_map(shape, es@, d),
            },
        }
    }
}

/// Decoding the elements of an array into a sequence shape.
pub open spec fn decode_seq(shape: Shape, items: Seq<Value>, d: nat) -> Result<Out, DecoderError>
    decreases d, 3nat, 0nat,
{
    match shape {
        Shape::List(elem) => match decode_list(*elem, items, d) {
            Ok(outs) => Ok(Out::List(outs)),
            Err(e) => Err(e),
        },
        Shape::Tuple(ts) => match decode_tuple(ts@, items, d) {
            Ok(outs) => Ok(Out::List(outs)),
            Err(e) => Err(e),
        },
        _ => Err(DecoderError::Syntax),
    }
}

/// Decoding the entries of a document into a record shape.
pub open spec fn decode_map(shape: Shape, es: Seq<(String, Value)>, d: nat) -> Result<Out, DecoderError>
    decreases d, 3nat, 0nat,
{
    match shape {
        Shape::Record(fields) => decode_record(fields@, es, d),
        _ => Err(DecoderError::Syntax),
    }
}

/// Every element in turn, until the first failure.
pub open spec fn decode_list(elem: Shape, items: Seq<Value>, d: nat) -> Result<Seq<Out>, DecoderError>
    decreases d, 0nat, items.len(),
{
    if d == 0 {
        Err(DecoderError::DepthLimit)
    } else if items.len() == 0 {
        Ok(Seq::empty())
    } else {
        match decode_value(elem, items[0], (d - 1) as nat) {
            Err(e) => Err(e),
            Ok(o) => prepend(seq![o], decode_list(elem, items.drop_first(), d)),
        }
    }
}

/// One element per element shape; the source must hold exactly as many.
pub open spec fn decode_tuple(ts: Seq<Shape>, items: Seq<Value>, d: nat) -> Result<Seq<Out>, DecoderError>
    decreases d, 0nat, items.len(),
{
    if d == 0 {
        Err(DecoderError::DepthLimit)
    } else if ts.len() == 0 {
        if items.len() == 0 {
            Ok(Seq::empty())
        } else {
            Err(DecoderError::LengthMismatch(items.len() as usize))
        }
    } else if items.len() == 0 {
        Err(DecoderError::EndOfStream)
    } else {
        match decode_value(ts[0], items[0], (d - 1) as nat) {
            Err(e) => Err(e),
            Ok(o) => prepend(seq![o], decode_tuple(ts.drop_first(), items.drop_first(), d)),
        }
    }
}

/// The slots of a record before any entry was read.
pub open spec fn empty_slots(n: nat) -> Seq<Option<Out>> {
    Seq::new(n, |i: int| None)
}

/// Reads entries in order into the slots of the fields they name. The first
/// key that names no field ends the reading: later entries are never seen.
pub open spec fn scan(
    fields: Seq<(String, Shape)>,
    es: Seq<(String, Value)>,
    slots: Seq<Option<Out>>,
    d: nat,
) -> Result<Seq<Option<Out>>, DecoderError>
    decreases d, 0nat, es.len(),
{
    if d == 0 {
        Err(DecoderError::DepthLimit)
    } else if es.len() == 0 {
        Ok(slots)
    } else {
        match name_index(fields, es[0].0@) {
            None => Ok(slots),
            Some(i) => match decode_value(fields[i].1, es[0].1, (d - 1) as nat) {
                Err(e) => Err(e),
                Ok(o) => scan(fields, es.drop_first(), slots.update(i, Some(o)), d),
            },
        }
    }
}

/// The value of each field: what was read into its slot, or its default.
pub open spec fn fill(fields: Seq<(String, Shape)>, slots: Seq<Option<Out>>) -> Result<
    Seq<Out>,
    DecoderError,
>
    decreases fields.len(),
{
    if fields.len() == 0 || slots.len() == 0 {
        Ok(Seq::empty())
    } else {
        let first = match slots[0] {
            Some(o) => Ok(o),
            None => unit_source(fields[0].1),
        };
        match first {
            Err(e) => Err(e),
            Ok(o) => prepend(seq![o], fill(fields.drop_first(), slots.drop_first())),
        }
    }
}

/// Decoding the entries of a document into the named fields of a record.
pub open spec fn decode_record(fields: Seq<(String, Shape)>, es: Seq<(String, Value)>, d: nat) -> Result<
    Out,
    DecoderError,
>
    decreases d, 1nat, 0nat,
{
    match scan(fields, es, empty_slots(fields.len()), d) {
        Err(e) => Err(e),
        Ok(slots) => match fill(fields, slots) {
            Ok(outs) => Ok(Out::Record(outs)),
            Err(e) => Err(e),
        },
    }
}

/// A union is a document with a single entry: the variant's name and its payload.
pub open spec fn decode_union(variants: Seq<(String, Shape)>, v: Value, d: nat) -> Result<Out, DecoderError>
    decreases d, 3nat, 0nat,
{
    match v {
        Value::Document(es) => if es@.len() == 0 {
            Err(DecoderError::ExpectedVariantName)
        } else if es@.len() > 1 {
            Err(DecoderError::ExpectedSingleKeyMap)
        } else {
            match name_index(variants, es@[0].0@) {
                None => Err(DecoderError::UnknownVariant(es@[0].0)),
                Some(i) => match decode_payload(variants[i].1, es@[0].1, d) {
                    Ok(o) => Ok(Out::Variant(i as usize, Box::new(o))),
                    Err(e) => Err(e),
                },
            }
        },
        _ => Err(DecoderError::ExpectedEnum),
    }
}

/// Decoding a variant's payload by the kind of its shape.
pub open spec fn decode_payload(shape: Shape, payload: Value, d: nat) -> Result<Out, DecoderError>
    decreases d, 2nat, 0nat,
{
    match shape {
        Shape::Tuple(ts) => decode_tuple_payload(ts@, payload, d),
        Shape::Record(fields) => decode_struct_payload(fields@, payload, d),
        _ => if d == 0 {
            Err(DecoderError::DepthLimit)
        } else {
            decode_value(shape, payload, (d - 1) as nat)
        },
    }
}

/// A positional payload is an array; an empty one is offered as unit.
pub open spec fn decode_tuple_payload(ts: Seq<Shape>, payload: Value, d: nat) -> Result<Out, DecoderError>
    decreases d, 1nat, 0nat,
{
    match payload {
        Value::Array(items) => if items@.len() == 0 {
            if ts.len() == 0 {
                Ok(Out::List(Seq::empty()))
            } else {
                Err(DecoderError::Syntax)
            }
        } else {
            match decode_tuple(ts, items@, d) {
                Ok(outs) => Ok(Out::List(outs)),
                Err(e) => Err(e),
            }
        },
        _ => Err(DecoderError::ExpectedTuple),
    }
}

/// A named-field payload is a document.
pub open spec fn decode_struct_payload(fields: Seq<(String, Shape)>, payload: Value, d: nat) -> Result<
    Out,
    DecoderError,
>
    decreases d, 1nat, 1nat,
{
    match payload {
        Value::Document(es) => decode_record(fields, es@, d),
        _ => Err(DecoderError::ExpectedStruct),
    }
}

/// Decoding the pending value as the name of one of `names`: its index.
pub open spec fn identifier_of(slot: Option<Value>, names: Seq<(String, Shape)>) -> Result<usize, DecoderError> {
    match slot {
        None => Err(DecoderError::EndOfStream),
        Some(Value::String(s)) => match name_index(names, s@) {
            Some(i) => Ok(i as usize),
            None => Err(DecoderError::UnknownField(s)),
        },
        Some(_) => Err(DecoderError::Syntax),
    }
}

/// The index that `name_index` finds is in range and carries the name.
pub proof fn lemma_name_index(names: Seq<(String, Shape)>, k: Seq<char>, j: int)
    requires
        0 <= j,
    ensures
        match name_index_from(names, k, j) {
            Some(i) => j <= i < names.len() && names[i].0@ == k,
            None => forall|i: int| j <= i < names.len() ==> names[i].0@ != k,
        },
    decreases names.len() - j,
{
    if j < names.len() && names[j].0@ != k {
        lemma_name_index(names, k, j + 1);
    }
}

} // verus!
