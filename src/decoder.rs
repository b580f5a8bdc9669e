//! The value cursor and the cursors it hands to sequence, map and union shapes.
use vstd::prelude::*;
use crate::error::DecoderError;
use crate::semantics::{
    decode_list, decode_map, decode_payload, decode_record, decode_seq, decode_slot, decode_struct_payload,
    decode_tuple, decode_tuple_payload, decode_union, decode_value, empty_slots, fill,
    identifier_of, lemma_name_index, name_index, name_index_from, prepend, scan, unit_offer,
    unit_source,
};
use crate::shape::{seq_model, Decoded, Out, Shape};
use crate::value::Value;

verus! {

broadcast use vstd::std_specs::vec::group_vec_axioms;

/// The content model of a decode result.
pub open spec fn result_model(r: Result<Decoded, DecoderError>) -> Result<Out, DecoderError> {
    match r {
        Ok(o) => Ok(o.model()),
        Err(e) => Err(e),
    }
}

/// The content model of a decode result that is a run of values.
pub open spec fn results_model(r: Result<Vec<Decoded>, DecoderError>) -> Result<Seq<Out>, DecoderError> {
    match r {
        Ok(v) => Ok(seq_model(v@)),
        Err(e) => Err(e),
    }
}

proof fn lemma_list_model(v: Vec<Decoded>)
    ensures
        Decoded::List(v).model() == Out::List(seq_model(v@)),
        Decoded::Record(v).model() == Out::Record(seq_model(v@)),
{
    assert(Decoded::List(v).model() == Out::List(seq_model(v@))) by {
        if let Out::List(s) = Decoded::List(v).model() {
            assert(s =~= seq_model(v@));
        }
    }
    assert(Decoded::Record(v).model() == Out::Record(seq_model(v@))) by {
        if let Out::Record(s) = Decoded::Record(v).model() {
            assert(s =~= seq_model(v@));
        }
    }
}

proof fn lemma_push_model(v: Seq<Decoded>, o: Decoded)
    ensures
        seq_model(v.push(o)) == seq_model(v) + seq![o.model()],
{
    assert(seq_model(v.push(o)) =~= seq_model(v) + seq![o.model()]);
}

/// The root decoding context: a slot holding at most one value that is
/// waiting to be decoded. Decoding moves the value out and empties the slot.
pub struct Decoder {
    pub value: Option<Value>,
}

impl Decoder {
    /// A decoder whose slot holds `value`.
    pub fn new(value: Value) -> (r: Decoder)
        ensures
            r.value == Some(value),
    {
        Decoder { value: Some(value) }
    }

    /// Moves the pending value out of the slot.
    pub fn take(&mut self) -> (r: Result<Value, DecoderError>)
        ensures
            final(self).value is None,
            match old(self).value {
                Some(v) => r == Ok::<Value, DecoderError>(v),
                None => r == Err::<Value, DecoderError>(DecoderError::EndOfStream),
            },
    {
        match self.value.take() {
            Some(v) => Ok(v),
            None => Err(DecoderError::EndOfStream),
        }
    }

    /// Reconstructs a value of `shape` from the pending value, allowing at
    /// most `depth` levels of nesting. The slot is empty afterwards, whatever
    /// the outcome, so a spent decoder only answers `EndOfStream`.
    pub fn decode(&mut self, shape: &Shape, depth: usize) -> (r: Result<Decoded, DecoderError>)
        ensures
            final(self).value is None,
            result_model(r) == decode_slot(old(self).value, *shape, depth as nat),
        decreases depth, 5nat, 0nat,
    {
        match self.take() {
            Ok(v) => decode_owned(shape, v, depth),
            Err(e) => Err(e),
        }
    }
}

impl Decoder {
    /// Decodes the pending value as one of `names`, giving its index.
    pub fn decode_identifier(&mut self, names: &Vec<(String, Shape)>) -> (r: Result<usize, DecoderError>)
        ensures
            final(self).value is None,
            r == identifier_of(old(self).value, names@),
    {
        match self.take() {
            Ok(Value::String(s)) => match find_name(names, &s) {
                Some(i) => Ok(i),
                None => Err(DecoderError::UnknownField(s)),
            },
            Ok(_) => Err(DecoderError::Syntax),
            Err(e) => Err(e),
        }
    }
}

/// The index of the first entry of `names` called `k`.
fn find_name(names: &Vec<(String, Shape)>, k: &String) -> (r: Option<usize>)
    ensures
        match r {
            Some(i) => name_index(names@, k@) == Some(i as int),
            None => name_index(names@, k@) is None,
        },
{
    let mut i: usize = 0;
    while i < names.len()
        invariant
            i <= names@.len(),
            name_index_from(names@, k@, 0) == name_index_from(names@, k@, i as int),
        decreases names@.len() - i,
    {
        if names[i].0 == *k {
            return Some(i);
        }
        i = i + 1;
    }
    None
}

/// What a shape makes of a unit value offered in place of content.
fn offer_unit(shape: &Shape) -> (r: Result<Decoded, DecoderError>)
    ensures
        result_model(r) == unit_offer(*shape),
{
    let empty: Vec<Decoded> = Vec::new();
    proof {
        lemma_list_model(empty);
        assert(seq_model(empty@) =~= Seq::<Out>::empty());
    }
    match shape {
        Shape::Unit => Ok(Decoded::Unit),
        Shape::List(_) => Ok(Decoded::List(empty)),
        Shape::Tuple(ts) => if ts.len() == 0 {
            Ok(Decoded::List(empty))
        } else {
            Err(DecoderError::Syntax)
        },
        _ => Err(DecoderError::Syntax),
    }
}

/// Decodes an owned value into `shape`.
fn decode_owned(shape: &Shape, v: Value, depth: usize) -> (r: Result<Decoded, DecoderError>)
    ensures
        result_model(r) == decode_value(*shape, v, depth as nat),
    decreases depth, 4nat, 0nat,
{
    if depth == 0 {
        return Err(DecoderError::DepthLimit);
    }
    match shape {
        Shape::Any => Ok(Decoded::Dynamic(v)),
        Shape::Optional(inner) => {
            if let Value::Null = v {
                Ok(Decoded::Nothing)
            } else {
                match decode_owned(&**inner, v, depth - 1) {
                    Ok(o) => Ok(Decoded::Just(Box::new(o))),
                    Err(e) => Err(e),
                }
            }
        },
        Shape::Newtype(inner) => decode_owned(&**inner, v, depth - 1),
        Shape::Union(variants) => decode_enum(variants, v, depth),
        _ => match v {
            Value::Null => offer_unit(shape),
            Value::Boolean(b) => if let Shape::Bool = shape {
                Ok(Decoded::Bool(b))
            } else {
                Err(DecoderError::Syntax)
            },
            Value::I32(x) => match shape {
                Shape::I32 => Ok(Decoded::I32(x)),
                Shape::I64 => Ok(Decoded::I64(x as i64)),
                _ => Err(DecoderError::Syntax),
            },
            Value::I64(x) => if let Shape::I64 = shape {
                Ok(Decoded::I64(x))
            } else {
                Err(DecoderError::Syntax)
            },
            Value::FloatingPoint(x) => if let Shape::F64 = shape {
                Ok(Decoded::F64(x))
            } else {
                Err(DecoderError::Syntax)
            },
            Value::String(s) => if let Shape::Str = shape {
                Ok(Decoded::Str(s))
            } else {
                Err(DecoderError::Syntax)
            },
            Value::Array(items) => if items.len() == 0 {
                offer_unit(shape)
            } else {
                decode_array(shape, items, depth)
            },
            Value::Document(es) => decode_entries(shape, es, depth),
            Value::Extended(es) => decode_entries(shape, es, depth),
        },
    }
}

/// Decodes the elements of an array into a sequence shape.
fn decode_array(shape: &Shape, items: Vec<Value>, depth: usize) -> (r: Result<Decoded, DecoderError>)
    requires
        depth > 0,
    ensures
        result_model(r) == decode_seq(*shape, items@, depth as nat),
    decreases depth, 3nat, 0nat,
{
    let mut cursor = SeqDecoder::new(items);
    let r = match shape {
        Shape::List(elem) => run_list(&mut cursor, &**elem, depth),
        Shape::Tuple(ts) => run_tuple(&mut cursor, ts, depth),
        _ => {
            return Err(DecoderError::Syntax);
        },
    };
    match r {
        Ok(v) => {
            proof {
                lemma_list_model(v);
            }
            Ok(Decoded::List(v))
        },
        Err(e) => Err(e),
    }
}

/// Decodes every remaining element of the cursor into `elem`.
fn run_list(cursor: &mut SeqDecoder, elem: &Shape, depth: usize) -> (r: Result<Vec<Decoded>, DecoderError>)
    requires
        depth > 0,
        old(cursor).wf(),
    ensures
        results_model(r) == decode_list(*elem, old(cursor).items@, depth as nat),
    decreases depth, 0nat, 0nat,
{
    let ghost all = old(cursor).items@;
    let mut acc: Vec<Decoded> = Vec::new();
    proof {
        if let Ok(rest) = decode_list(*elem, all, depth as nat) {
            assert(seq_model(acc@) + rest =~= rest);
        }
    }
    while cursor.items.len() > 0
        invariant
            depth > 0,
            cursor.wf(),
            all == old(cursor).items@,
            decode_list(*elem, all, depth as nat) == prepend(
                seq_model(acc@),
                decode_list(*elem, cursor.items@, depth as nat),
            ),
        decreases cursor.items@.len(),
    {
        let ghost rest = cursor.items@;
        match cursor.next_element(elem, depth - 1) {
            Ok(Some(o)) => {
                proof {
                    lemma_push_model(acc@, o);
                    assert(seq_model(acc@) + seq![o.model()] + decode_list(*elem, cursor.items@, depth as nat)->Ok_0
                        =~= seq_model(acc@) + (seq![o.model()] + decode_list(*elem, cursor.items@, depth as nat)->Ok_0));
                }
                acc.push(o);
            },
            Ok(None) => {
                return Err(DecoderError::EndOfStream);
            },
            Err(e) => {
                assert(decode_list(*elem, rest, depth as nat) == Err::<Seq<Out>, DecoderError>(e));
                return Err(e);
            },
        }
    }
    proof {
        assert(seq_model(acc@) + Seq::<Out>::empty() =~= seq_model(acc@));
    }
    Ok(acc)
}

/// Decodes one element per element shape, then requires the cursor to be spent.
fn run_tuple(cursor: &mut SeqDecoder, ts: &Vec<Shape>, depth: usize) -> (r: Result<Vec<Decoded>, DecoderError>)
    requires
        depth > 0,
        old(cursor).wf(),
    ensures
        results_model(r) == decode_tuple(ts@, old(cursor).items@, depth as nat),
    decreases depth, 0nat, 0nat,
{
    let ghost all = old(cursor).items@;
    let mut acc: Vec<Decoded> = Vec::new();
    let mut i: usize = 0;
    proof {
        assert(ts@.skip(0) =~= ts@);
        if let Ok(rest) = decode_tuple(ts@, all, depth as nat) {
            assert(seq_model(acc@) + rest =~= rest);
        }
    }
    while i < ts.len()
        invariant
            depth > 0,
            cursor.wf(),
            all == old(cursor).items@,
            i <= ts@.len(),
            decode_tuple(ts@, all, depth as nat) == prepend(
                seq_model(acc@),
                decode_tuple(ts@.skip(i as int), cursor.items@, depth as nat),
            ),
        decreases ts@.len() - i,
    {
        assert(ts@.skip(i as int).drop_first() =~= ts@.skip(i + 1));
        let ghost rest = cursor.items@;
        match cursor.next_element(&ts[i], depth - 1) {
            Ok(Some(o)) => {
                proof {
                    lemma_push_model(acc@, o);
                    assert(seq_model(acc@) + seq![o.model()] + decode_tuple(ts@.skip(i + 1), cursor.items@, depth as nat)->Ok_0
                        =~= seq_model(acc@) + (seq![o.model()] + decode_tuple(ts@.skip(i + 1), cursor.items@, depth as nat)->Ok_0));
                }
                acc.push(o);
            },
            Ok(None) => {
                assert(decode_tuple(ts@.skip(i as int), rest, depth as nat) == Err::<Seq<Out>, DecoderError>(DecoderError::EndOfStream));
                return Err(DecoderError::EndOfStream);
            },
            Err(e) => {
                assert(decode_tuple(ts@.skip(i as int), rest, depth as nat) == Err::<Seq<Out>, DecoderError>(e));
                return Err(e);
            },
        }
        i = i + 1;
    }
    assert(ts@.skip(i as int).len() == 0);
    match cursor.finish() {
        Ok(()) => {
            proof {
                assert(seq_model(acc@) + Seq::<Out>::empty() =~= seq_model(acc@));
            }
            Ok(acc)
        },
        Err(e) => Err(e),
    }
}

/// Decodes the entries of a document into a record shape.
fn decode_entries(shape: &Shape, es: Vec<(String, Value)>, depth: usize) -> (r: Result<Decoded, DecoderError>)
    requires
        depth > 0,
    ensures
        result_model(r) == decode_map(*shape, es@, depth as nat),
    decreases depth, 3nat, 0nat,
{
    match shape {
        Shape::Record(fields) => {
            let mut cursor = MapDecoder::new(es);
            record_result(run_record(&mut cursor, fields, depth))
        },
        _ => Err(DecoderError::Syntax),
    }
}

fn record_result(r: Result<Vec<Decoded>, DecoderError>) -> (o: Result<Decoded, DecoderError>)
    ensures
        result_model(o) == match results_model(r) {
            Ok(s) => Ok(Out::Record(s)),
            Err(e) => Err(e),
        },
{
    match r {
        Ok(v) => {
            proof {
                lemma_list_model(v);
            }
            Ok(Decoded::Record(v))
        },
        Err(e) => Err(e),
    }
}

/// The content model of a record's slots.
pub open spec fn slots_model(s: Seq<Option<Decoded>>) -> Seq<Option<Out>> {
    Seq::new(
        s.len(),
        |i: int|
            match s[i] {
                Some(o) => Some(o.model()),
                None => None,
            },
    )
}

/// Reads the cursor's entries into the record's fields, then fills in the
/// fields that were never named.
fn run_record(cursor: &mut MapDecoder, fields: &Vec<(String, Shape)>, depth: usize) -> (r: Result<Vec<Decoded>, DecoderError>)
    requires
        depth > 0,
        old(cursor).wf(),
    ensures
        match r {
            Ok(v) => decode_record(fields@, old(cursor).entries@, depth as nat) == Ok::<Out, DecoderError>(Out::Record(seq_model(v@))),
            Err(e) => decode_record(fields@, old(cursor).entries@, depth as nat) == Err::<Out, DecoderError>(e),
        },
    decreases depth, 1nat, 0nat,
{
    let ghost all = old(cursor).entries@;
    let n = fields.len();
    let mut slots: Vec<Option<Decoded>> = Vec::new();
    while slots.len() < n
        invariant
            slots@.len() <= n,
            n == fields@.len(),
            forall|j: int| 0 <= j < slots@.len() ==> slots@[j] is None,
        decreases n - slots@.len(),
    {
        slots.push(None);
    }
    proof {
        assert(slots_model(slots@) =~= empty_slots(n as nat));
    }
    loop
        invariant_except_break
            scan(fields@, all, empty_slots(n as nat), depth as nat) == scan(
                fields@,
                cursor.entries@,
                slots_model(slots@),
                depth as nat,
            ),
        invariant
            depth > 0,
            cursor.wf(),
            all == old(cursor).entries@,
            n == fields@.len(),
            slots@.len() == n,
        ensures
            cursor.wf(),
            slots@.len() == n,
            scan(fields@, all, empty_slots(n as nat), depth as nat) == Ok::<Seq<Option<Out>>, DecoderError>(slots_model(slots@)),
        decreases cursor.entries@.len(),
    {
        let ghost rest = cursor.entries@;
        match cursor.next_key(fields) {
            Ok(Some(i)) => {
                proof {
                    lemma_name_index(fields@, rest[0].0@, 0);
                }
                match cursor.next_value(&fields[i].1, depth - 1) {
                    Ok(o) => {
                        proof {
                            assert(slots_model(slots@.update(i as int, Some(o))) =~= slots_model(slots@).update(i as int, Some(o.model())));
                        }
                        slots.set(i, Some(o));
                    },
                    Err(e) => {
                        assert(scan(fields@, rest, slots_model(slots@), depth as nat) == Err::<Seq<Option<Out>>, DecoderError>(e));
                        return Err(e);
                    },
                }
            },
            Ok(None) => {
                assert(scan(fields@, rest, slots_model(slots@), depth as nat) == Ok::<Seq<Option<Out>>, DecoderError>(slots_model(slots@)));
                break;
            },
            Err(e) => {
                return Err(e);
            },
        }
    }
    let ghost filled = slots_model(slots@);
    let mut outs: Vec<Decoded> = Vec::new();
    let mut j: usize = 0;
    proof {
        assert(fields@.skip(0) =~= fields@);
        if let Ok(rest) = fill(fields@, filled) {
            assert(seq_model(outs@) + rest =~= rest);
        }
    }
    while j < n
        invariant
            n == fields@.len(),
            j <= n,
            slots@.len() == n - j,
            scan(fields@, old(cursor).entries@, empty_slots(n as nat), depth as nat) == Ok::<Seq<Option<Out>>, DecoderError>(filled),
            fill(fields@, filled) == prepend(
                seq_model(outs@),
                fill(fields@.skip(j as int), slots_model(slots@)),
            ),
        decreases n - j,
    {
        assert(fields@.skip(j as int).drop_first() =~= fields@.skip(j + 1));
        let ghost before = slots_model(slots@);
        let slot = slots.remove(0);
        proof {
            assert(slots_model(slots@) =~= before.drop_first());
        }
        let o = match slot {
            Some(o) => o,
            None => match cursor.missing_field(&fields[j].1) {
                Ok(o) => o,
                Err(e) => {
                    assert(before[0] is None);
                    assert(fill(fields@.skip(j as int), before) == Err::<Seq<Out>, DecoderError>(e));
                    return Err(e);
                },
            },
        };
        proof {
            assert(fill(fields@.skip(j as int), before) == prepend(seq![o.model()], fill(fields@.skip(j + 1), slots_model(slots@))));
            lemma_push_model(outs@, o);
            assert(seq_model(outs@) + seq![o.model()] + fill(fields@.skip(j + 1), slots_model(slots@))->Ok_0
                =~= seq_model(outs@) + (seq![o.model()] + fill(fields@.skip(j + 1), slots_model(slots@))->Ok_0));
        }
        outs.push(o);
        j = j + 1;
    }
    proof {
        assert(seq_model(outs@) + Seq::<Out>::empty() =~= seq_model(outs@));
    }
    match cursor.finish() {
        Ok(()) => Ok(outs),
        Err(e) => Err(e),
    }
}

/// What a record field that the source never named is decoded from: a
/// source that answers every request with unit, and optional requests with
/// `None`.
fn default_of(shape: &Shape) -> (r: Result<Decoded, DecoderError>)
    ensures
        result_model(r) == unit_source(*shape),
    decreases shape,
{
    match shape {
        Shape::Optional(_) => Ok(Decoded::Nothing),
        Shape::Newtype(inner) => default_of(&**inner),
        Shape::Any => Ok(Decoded::Dynamic(Value::Null)),
        _ => match offer_unit(shape) {
            Ok(o) => Ok(o),
            Err(_) => Err(DecoderError::EndOfStream),
        },
    }
}

/// Decodes a union: a document with a single entry, the variant's name and
/// its payload.
fn decode_enum(variants: &Vec<(String, Shape)>, v: Value, depth: usize) -> (r: Result<Decoded, DecoderError>)
    requires
        depth > 0,
    ensures
        result_model(r) == decode_union(variants@, v, depth as nat),
    decreases depth, 3nat, 0nat,
{
    let mut es = match v {
        Value::Document(es) => es,
        _ => {
            return Err(DecoderError::ExpectedEnum);
        },
    };
    if es.len() == 0 {
        return Err(DecoderError::ExpectedVariantName);
    }
    if es.len() > 1 {
        return Err(DecoderError::ExpectedSingleKeyMap);
    }
    let ghost entries = es@;
    let (name, payload) = es.remove(0);
    assert(entries[0] == (name, payload));
    let mut cursor = VariantDecoder::new(name, payload);
    let i = match cursor.variant_name(variants) {
        Ok(i) => i,
        Err(e) => {
            assert(decode_union(variants@, v, depth as nat) == Err::<Out, DecoderError>(e));
            return Err(e);
        },
    };
    // brings in that the variant count, and so the found index, fits in usize
    let ghost count = variants.len();
    proof {
        lemma_name_index(variants@, name@, 0);
    }
    let r = match &variants[i].1 {
        Shape::Tuple(ts) => cursor.tuple_payload(ts, depth),
        Shape::Record(fields) => cursor.struct_payload(fields, depth),
        Shape::Unit => match cursor.unit_payload(depth) {
            Ok(()) => Ok(Decoded::Unit),
            Err(e) => Err(e),
        },
        other => cursor.newtype_payload(other, depth),
    };
    match r {
        Ok(o) => Ok(Decoded::Variant(i, Box::new(o))),
        Err(e) => Err(e),
    }
}

/// The only value a unit shape decodes to is unit.
proof fn lemma_unit_decodes_to_unit(v: Value, d: nat)
    ensures
        decode_value(Shape::Unit, v, d) is Ok ==> decode_value(Shape::Unit, v, d) == Ok::<Out, DecoderError>(Out::Unit),
{
    if d > 0 {
        match v {
            Value::Array(items) => {
                assert(decode_seq(Shape::Unit, items@, d) is Err);
            },
            Value::Document(es) => {
                assert(decode_map(Shape::Unit, es@, d) is Err);
            },
            Value::Extended(es) => {
                assert(decode_map(Shape::Unit, es@, d) is Err);
            },
            _ => {},
        }
    }
}

/// A cursor over the discriminant and the payload of a union value, each
/// read at most once.
pub struct VariantDecoder {
    pub variant: Option<Value>,
    pub val: Option<Value>,
}

impl VariantDecoder {
    /// A cursor over the variant called `name`, carrying `payload`.
    pub fn new(name: String, payload: Value) -> (r: VariantDecoder)
        ensures
            r.variant == Some(Value::String(name)),
            r.val == Some(payload),
    {
        VariantDecoder { variant: Some(Value::String(name)), val: Some(payload) }
    }

    /// Decodes the discriminant as one of `variants`, giving its index.
    pub fn variant_name(&mut self, variants: &Vec<(String, Shape)>) -> (r: Result<usize, DecoderError>)
        requires
            old(self).variant is Some,
        ensures
            final(self).variant is None,
            final(self).val == old(self).val,
            r == match identifier_of(old(self).variant, variants@) {
                Err(DecoderError::UnknownField(s)) => Err(DecoderError::UnknownVariant(s)),
                other => other,
            },
    {
        let mut de = Decoder::new(self.variant.take().unwrap());
        match de.decode_identifier(variants) {
            Err(DecoderError::UnknownField(s)) => Err(DecoderError::UnknownVariant(s)),
            other => other,
        }
    }

    /// Decodes a payload that must be unit.
    pub fn unit_payload(&mut self, depth: usize) -> (r: Result<(), DecoderError>)
        requires
            old(self).val is Some,
            depth > 0,
        ensures
            final(self).val is None,
            match r {
                Ok(()) => decode_value(Shape::Unit, old(self).val->Some_0, (depth - 1) as nat) == Ok::<Out, DecoderError>(Out::Unit),
                Err(e) => decode_value(Shape::Unit, old(self).val->Some_0, (depth - 1) as nat) == Err::<Out, DecoderError>(e),
            },
        decreases depth, 2nat, 0nat,
    {
        let v = self.val.take().unwrap();
        proof {
            lemma_unit_decodes_to_unit(v, (depth - 1) as nat);
        }
        let mut de = Decoder::new(v);
        match de.decode(&Shape::Unit, depth - 1) {
            Ok(_) => Ok(()),
            Err(e) => Err(e),
        }
    }

    /// Decodes a payload that is a single value of `shape`.
    pub fn newtype_payload(&mut self, shape: &Shape, depth: usize) -> (r: Result<Decoded, DecoderError>)
        requires
            old(self).val is Some,
            depth > 0,
        ensures
            final(self).val is None,
            result_model(r) == decode_value(*shape, old(self).val->Some_0, (depth - 1) as nat),
        decreases depth, 2nat, 0nat,
    {
        let mut de = Decoder::new(self.val.take().unwrap());
        de.decode(shape, depth - 1)
    }

    /// Decodes a payload of positional fields, which must be an array.
    pub fn tuple_payload(&mut self, ts: &Vec<Shape>, depth: usize) -> (r: Result<Decoded, DecoderError>)
        requires
            old(self).val is Some,
            depth > 0,
        ensures
            final(self).val is None,
            result_model(r) == decode_tuple_payload(ts@, old(self).val->Some_0, depth as nat),
        decreases depth, 2nat, 0nat,
    {
        match self.val.take().unwrap() {
            Value::Array(items) => {
                if items.len() == 0 {
                    let empty: Vec<Decoded> = Vec::new();
                    proof {
                        lemma_list_model(empty);
                        assert(seq_model(empty@) =~= Seq::<Out>::empty());
                    }
                    if ts.len() == 0 {
                        Ok(Decoded::List(empty))
                    } else {
                        Err(DecoderError::Syntax)
                    }
                } else {
                    let mut cursor = SeqDecoder::new(items);
                    match run_tuple(&mut cursor, ts, depth) {
                        Ok(v) => {
                            proof {
                                lemma_list_model(v);
                            }
                            Ok(Decoded::List(v))
                        },
                        Err(e) => Err(e),
                    }
                }
            },
            _ => Err(DecoderError::ExpectedTuple),
        }
    }

    /// Decodes a payload of named fields, which must be a document.
    pub fn struct_payload(&mut self, fields: &Vec<(String, Shape)>, depth: usize) -> (r: Result<Decoded, DecoderError>)
        requires
            old(self).val is Some,
            depth > 0,
        ensures
            final(self).val is None,
            result_model(r) == decode_struct_payload(fields@, old(self).val->Some_0, depth as nat),
        decreases depth, 2nat, 0nat,
    {
        match self.val.take().unwrap() {
            Value::Document(es) => {
                let mut cursor = MapDecoder::new(es);
                record_result(run_record(&mut cursor, fields, depth))
            },
            _ => Err(DecoderError::ExpectedStruct),
        }
    }
}

/// A cursor over the unread entries of a document, in insertion order.
pub struct MapDecoder {
    /// The entries not yet read, in order.
    pub entries: Vec<(String, Value)>,
    /// How many entries are left to read.
    pub len: usize,
    /// The value of the key read last, until it is asked for.
    pub value: Option<Value>,
}

impl MapDecoder {
    pub open spec fn wf(&self) -> bool {
        self.len == self.entries@.len()
    }

    /// A cursor at the start of `entries`.
    pub fn new(entries: Vec<(String, Value)>) -> (r: MapDecoder)
        ensures
            r.wf(),
            r.entries@ == entries@,
            r.value is None,
    {
        let len = entries.len();
        MapDecoder { entries, len, value: None }
    }

    /// Reads the next entry's key as one of `fields`, and holds its value
    /// for `next_value`. At the end, and at the first key that names no
    /// field, it gives `None`: entries after an unknown key are never read.
    pub fn next_key(&mut self, fields: &Vec<(String, Shape)>) -> (r: Result<Option<usize>, DecoderError>)
        requires
            old(self).wf(),
        ensures
            final(self).wf(),
            old(self).entries@.len() == 0 ==> r == Ok::<Option<usize>, DecoderError>(None)
                && final(self).entries@ == old(self).entries@ && final(self).value == old(self).value,
            old(self).entries@.len() > 0 ==> final(self).entries@ == old(self).entries@.drop_first()
                && final(self).value == Some(old(self).entries@[0].1)
                && r == match name_index(fields@, old(self).entries@[0].0@) {
                Some(i) => Ok::<Option<usize>, DecoderError>(Some(i as usize)),
                None => Ok::<Option<usize>, DecoderError>(None),
            },
    {
        if self.entries.len() == 0 {
            return Ok(None);
        }
        let (key, value) = self.entries.remove(0);
        self.len = self.len - 1;
        proof {
            assert(old(self).entries@.remove(0) =~= old(self).entries@.drop_first());
        }
        self.value = Some(value);
        let mut de = Decoder::new(Value::String(key));
        match de.decode_identifier(fields) {
            Ok(i) => Ok(Some(i)),
            Err(DecoderError::UnknownField(_)) => Ok(None),
            Err(e) => Err(e),
        }
    }

    /// Decodes the value of the key read last into `shape`.
    pub fn next_value(&mut self, shape: &Shape, depth: usize) -> (r: Result<Decoded, DecoderError>)
        requires
            old(self).wf(),
            old(self).value is Some,
        ensures
            final(self).wf(),
            final(self).entries@ == old(self).entries@,
            final(self).value is None,
            result_model(r) == decode_value(*shape, old(self).value->Some_0, depth as nat),
        decreases depth, 6nat, 0nat,
    {
        let mut de = Decoder::new(self.value.take().unwrap());
        de.decode(shape, depth)
    }

    /// Always succeeds: entries left unread are ignored.
    pub fn finish(&self) -> (r: Result<(), DecoderError>)
        ensures
            r is Ok,
    {
        Ok(())
    }

    /// Decodes a field that the entries never named, from a source that
    /// offers unit and `None`.
    pub fn missing_field(&self, shape: &Shape) -> (r: Result<Decoded, DecoderError>)
        ensures
            result_model(r) == unit_source(*shape),
    {
        default_of(shape)
    }

    /// The exact number of entries left, as lower and upper bound.
    pub fn size_hint(&self) -> (r: (usize, Option<usize>))
        ensures
            r == (self.len, Some(self.len)),
    {
        (self.len, Some(self.len))
    }
}

/// A cursor over the unread elements of an array.
pub struct SeqDecoder {
    /// The elements not yet read, in order.
    pub items: Vec<Value>,
    /// How many elements are left to read.
    pub len: usize,
}

impl SeqDecoder {
    pub open spec fn wf(&self) -> bool {
        self.len == self.items@.len()
    }

    /// A cursor at the start of `items`.
    pub fn new(items: Vec<Value>) -> (r: SeqDecoder)
        ensures
            r.wf(),
            r.items@ == items@,
    {
        let len = items.len();
        SeqDecoder { items, len }
    }

    /// Decodes the next element into `shape`, or gives `None` at the end.
    pub fn next_element(&mut self, shape: &Shape, depth: usize) -> (r: Result<Option<Decoded>, DecoderError>)
        requires
            old(self).wf(),
        ensures
            final(self).wf(),
            old(self).items@.len() == 0 ==> r == Ok::<Option<Decoded>, DecoderError>(None)
                && final(self).items@ == old(self).items@,
            old(self).items@.len() > 0 ==> final(self).items@ == old(self).items@.drop_first()
                && match r {
                Ok(Some(o)) => decode_value(*shape, old(self).items@[0], depth as nat) == Ok::<Out, DecoderError>(o.model()),
                Ok(None) => false,
                Err(e) => decode_value(*shape, old(self).items@[0], depth as nat) == Err::<Out, DecoderError>(e),
            },
        decreases depth, 6nat, 0nat,
    {
        if self.items.len() == 0 {
            return Ok(None);
        }
        let v = self.items.remove(0);
        self.len = self.len - 1;
        proof {
            assert(old(self).items@.remove(0) =~= old(self).items@.drop_first());
        }
        let mut de = Decoder::new(v);
        match de.decode(shape, depth) {
            Ok(o) => Ok(Some(o)),
            Err(e) => Err(e),
        }
    }

    /// Succeeds only when every element has been read.
    pub fn finish(&self) -> (r: Result<(), DecoderError>)
        requires
            self.wf(),
        ensures
            self.len == 0 ==> r is Ok,
            self.len > 0 ==> r == Err::<(), DecoderError>(DecoderError::LengthMismatch(self.len)),
    {
        if self.len == 0 {
            Ok(())
        } else {
            Err(DecoderError::LengthMismatch(self.len))
        }
    }

    /// The exact number of elements left, as lower and upper bound.
    pub fn size_hint(&self) -> (r: (usize, Option<usize>))
        ensures
            r == (self.len, Some(self.len)),
    {
        (self.len, Some(self.len))
    }
}

} // verus!
