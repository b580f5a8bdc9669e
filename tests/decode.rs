use bson_decode::{BsonVisitor, Decoded, Decoder, DecoderError, MapDecoder, SeqDecoder, Shape, Value};

const DEPTH: usize = 32;

fn s(text: &str) -> String {
    text.to_string()
}

fn doc(entries: Vec<(&str, Value)>) -> Value {
    Value::Document(entries.into_iter().map(|(k, v)| (s(k), v)).collect())
}

fn fields(entries: Vec<(&str, Shape)>) -> Vec<(String, Shape)> {
    entries.into_iter().map(|(k, v)| (s(k), v)).collect()
}

fn decode(value: Value, shape: &Shape) -> Result<Decoded, DecoderError> {
    Decoder::new(value).decode(shape, DEPTH)
}

fn opt(shape: Shape) -> Shape {
    Shape::Optional(Box::new(shape))
}

fn process_shape() -> Shape {
    Shape::Union(fields(vec![
        ("Running", Shape::Record(fields(vec![("pid", Shape::I32)]))),
        ("Stopped", Shape::Unit),
        ("Exited", Shape::I32),
        ("Moved", Shape::Tuple(vec![Shape::I32, Shape::I32])),
    ]))
}

#[test]
fn scalars_decode_to_the_same_value() {
    assert_eq!(decode(Value::Boolean(true), &Shape::Bool), Ok(Decoded::Bool(true)));
    assert_eq!(decode(Value::I32(-7), &Shape::I32), Ok(Decoded::I32(-7)));
    assert_eq!(decode(Value::I64(1 << 40), &Shape::I64), Ok(Decoded::I64(1 << 40)));
    let bits = 2.5f64.to_bits();
    assert_eq!(decode(Value::FloatingPoint(bits), &Shape::F64), Ok(Decoded::F64(bits)));
    assert_eq!(decode(Value::String(s("hi")), &Shape::Str), Ok(Decoded::Str(s("hi"))));
    assert_eq!(decode(Value::Null, &Shape::Unit), Ok(Decoded::Unit));
}

#[test]
fn null_into_optional_is_nothing() {
    assert_eq!(decode(Value::Null, &opt(Shape::I32)), Ok(Decoded::Nothing));
    assert_eq!(
        decode(Value::I32(3), &opt(Shape::I32)),
        Ok(Decoded::Just(Box::new(Decoded::I32(3))))
    );
}

#[test]
fn int32_widens_but_int64_does_not_narrow() {
    assert_eq!(decode(Value::I32(5), &Shape::I64), Ok(Decoded::I64(5)));
    assert_eq!(decode(Value::I64(5), &Shape::I32), Err(DecoderError::Syntax));
    assert_eq!(decode(Value::String(s("5")), &Shape::I32), Err(DecoderError::Syntax));
}

#[test]
fn newtype_is_transparent() {
    let shape = Shape::Newtype(Box::new(Shape::Str));
    assert_eq!(decode(Value::String(s("x")), &shape), Ok(Decoded::Str(s("x"))));
}

#[test]
fn tuple_reading_every_element_succeeds() {
    let shape = Shape::Tuple(vec![Shape::I32, Shape::Str]);
    let value = Value::Array(vec![Value::I32(1), Value::String(s("a"))]);
    assert_eq!(
        decode(value, &shape),
        Ok(Decoded::List(vec![Decoded::I32(1), Decoded::Str(s("a"))]))
    );
}

#[test]
fn tuple_reading_fewer_elements_is_length_mismatch() {
    let shape = Shape::Tuple(vec![Shape::I32]);
    let value = Value::Array(vec![Value::I32(1), Value::I32(2), Value::I32(3)]);
    assert_eq!(decode(value, &shape), Err(DecoderError::LengthMismatch(2)));
}

#[test]
fn tuple_longer_than_array_is_end_of_stream() {
    let shape = Shape::Tuple(vec![Shape::I32, Shape::I32]);
    let value = Value::Array(vec![Value::I32(1)]);
    assert_eq!(decode(value, &shape), Err(DecoderError::EndOfStream));
}

#[test]
fn list_reads_every_element() {
    let shape = Shape::List(Box::new(Shape::I64));
    let value = Value::Array(vec![Value::I64(4), Value::I32(5)]);
    assert_eq!(
        decode(value, &shape),
        Ok(Decoded::List(vec![Decoded::I64(4), Decoded::I64(5)]))
    );
    assert_eq!(decode(Value::Null, &shape), Ok(Decoded::List(vec![])));
    assert_eq!(
        decode(Value::Array(vec![Value::Boolean(true)]), &shape),
        Err(DecoderError::Syntax)
    );
}

#[test]
fn sequence_cursor_counts_down() {
    let mut cursor = SeqDecoder::new(vec![Value::I32(1), Value::I32(2), Value::I32(3)]);
    assert_eq!(cursor.size_hint(), (3, Some(3)));
    assert_eq!(cursor.next_element(&Shape::I32, DEPTH), Ok(Some(Decoded::I32(1))));
    assert_eq!(cursor.next_element(&Shape::I32, DEPTH), Ok(Some(Decoded::I32(2))));
    assert_eq!(cursor.size_hint(), (1, Some(1)));
    assert_eq!(cursor.finish(), Err(DecoderError::LengthMismatch(1)));
    assert_eq!(cursor.next_element(&Shape::I32, DEPTH), Ok(Some(Decoded::I32(3))));
    assert_eq!(cursor.next_element(&Shape::I32, DEPTH), Ok(None));
    assert_eq!(cursor.finish(), Ok(()));
}

#[test]
fn missing_optional_field_is_nothing() {
    let shape = Shape::Record(fields(vec![("x", opt(Shape::I32)), ("y", Shape::I32)]));
    let value = doc(vec![("y", Value::I32(1))]);
    assert_eq!(
        decode(value, &shape),
        Ok(Decoded::Record(vec![Decoded::Nothing, Decoded::I32(1)]))
    );
}

#[test]
fn missing_required_field_is_end_of_stream() {
    let shape = Shape::Record(fields(vec![("x", Shape::I32), ("y", Shape::I32)]));
    let value = doc(vec![("y", Value::I32(1))]);
    assert_eq!(decode(value, &shape), Err(DecoderError::EndOfStream));
}

#[test]
fn missing_unit_like_fields_default() {
    let shape = Shape::Record(fields(vec![
        ("u", Shape::Unit),
        ("l", Shape::List(Box::new(Shape::I32))),
        ("n", Shape::Newtype(Box::new(opt(Shape::Str)))),
        ("a", Shape::Any),
    ]));
    assert_eq!(
        decode(doc(vec![]), &shape),
        Ok(Decoded::Record(vec![
            Decoded::Unit,
            Decoded::List(vec![]),
            Decoded::Nothing,
            Decoded::Dynamic(Value::Null),
        ]))
    );
}

#[test]
fn unknown_field_ends_the_record() {
    let value = doc(vec![("a", Value::I32(1)), ("b", Value::I32(2)), ("c", Value::I32(3))]);
    let optional_c = Shape::Record(fields(vec![("a", Shape::I32), ("c", opt(Shape::I32))]));
    assert_eq!(
        decode(value, &optional_c),
        Ok(Decoded::Record(vec![Decoded::I32(1), Decoded::Nothing]))
    );
    let value = doc(vec![("a", Value::I32(1)), ("b", Value::I32(2)), ("c", Value::I32(3))]);
    let required_c = Shape::Record(fields(vec![("a", Shape::I32), ("c", Shape::I32)]));
    assert_eq!(decode(value, &required_c), Err(DecoderError::EndOfStream));
}

#[test]
fn later_entry_for_a_field_wins() {
    let value = doc(vec![("a", Value::I32(1)), ("a", Value::I32(2))]);
    let shape = Shape::Record(fields(vec![("a", Shape::I32)]));
    assert_eq!(decode(value, &shape), Ok(Decoded::Record(vec![Decoded::I32(2)])));
}

#[test]
fn map_cursor_reads_keys_then_values() {
    let names = fields(vec![("a", Shape::I32), ("c", Shape::Str)]);
    let mut cursor = MapDecoder::new(vec![
        (s("c"), Value::String(s("z"))),
        (s("q"), Value::I32(9)),
        (s("a"), Value::I32(1)),
    ]);
    assert_eq!(cursor.size_hint(), (3, Some(3)));
    assert_eq!(cursor.next_key(&names), Ok(Some(1)));
    assert_eq!(cursor.next_value(&Shape::Str, DEPTH), Ok(Decoded::Str(s("z"))));
    assert_eq!(cursor.next_key(&names), Ok(None));
    assert_eq!(cursor.size_hint(), (1, Some(1)));
    assert_eq!(cursor.finish(), Ok(()));
    assert_eq!(cursor.missing_field(&opt(Shape::I32)), Ok(Decoded::Nothing));
    assert_eq!(cursor.missing_field(&Shape::Bool), Err(DecoderError::EndOfStream));
}

#[test]
fn enum_with_struct_payload() {
    let value = doc(vec![("Running", doc(vec![("pid", Value::I32(42))]))]);
    assert_eq!(
        decode(value, &process_shape()),
        Ok(Decoded::Variant(0, Box::new(Decoded::Record(vec![Decoded::I32(42)]))))
    );
}

#[test]
fn enum_with_unit_payload() {
    let value = doc(vec![("Stopped", Value::Null)]);
    assert_eq!(decode(value, &process_shape()), Ok(Decoded::Variant(1, Box::new(Decoded::Unit))));
}

#[test]
fn enum_with_newtype_and_tuple_payloads() {
    let value = doc(vec![("Exited", Value::I32(3))]);
    assert_eq!(
        decode(value, &process_shape()),
        Ok(Decoded::Variant(2, Box::new(Decoded::I32(3))))
    );
    let value = doc(vec![("Moved", Value::Array(vec![Value::I32(1), Value::I32(2)]))]);
    assert_eq!(
        decode(value, &process_shape()),
        Ok(Decoded::Variant(3, Box::new(Decoded::List(vec![Decoded::I32(1), Decoded::I32(2)]))))
    );
}

#[test]
fn enum_with_two_keys_is_rejected() {
    let value = doc(vec![("Running", Value::I32(1)), ("Extra", Value::I32(2))]);
    assert_eq!(decode(value, &process_shape()), Err(DecoderError::ExpectedSingleKeyMap));
}

#[test]
fn enum_from_empty_document_is_rejected() {
    assert_eq!(decode(doc(vec![]), &process_shape()), Err(DecoderError::ExpectedVariantName));
}

#[test]
fn enum_errors() {
    assert_eq!(decode(Value::I32(1), &process_shape()), Err(DecoderError::ExpectedEnum));
    assert_eq!(
        decode(doc(vec![("Paused", Value::Null)]), &process_shape()),
        Err(DecoderError::UnknownVariant(s("Paused")))
    );
    assert_eq!(
        decode(doc(vec![("Moved", Value::I32(1))]), &process_shape()),
        Err(DecoderError::ExpectedTuple)
    );
    assert_eq!(
        decode(doc(vec![("Running", Value::I32(1))]), &process_shape()),
        Err(DecoderError::ExpectedStruct)
    );
    assert_eq!(
        decode(doc(vec![("Moved", Value::Array(vec![]))]), &process_shape()),
        Err(DecoderError::Syntax)
    );
}

#[test]
fn extended_value_decodes_as_its_document() {
    let extended = Value::Extended(vec![(s("$oid"), Value::String(s("5f1d")))]);
    let shape = Shape::Record(fields(vec![("$oid", Shape::Str)]));
    assert_eq!(decode(extended, &shape), Ok(Decoded::Record(vec![Decoded::Str(s("5f1d"))])));
    let extended = Value::Extended(vec![(s("$oid"), Value::String(s("5f1d")))]);
    assert_eq!(
        decode(extended, &Shape::Any),
        Ok(Decoded::Dynamic(Value::Extended(vec![(s("$oid"), Value::String(s("5f1d")))])))
    );
    assert_eq!(
        Value::Extended(vec![(s("k"), Value::Null)]).to_extended_document(),
        Some(vec![(s("k"), Value::Null)])
    );
    assert_eq!(Value::I32(1).to_extended_document(), None);
}

#[test]
fn spent_decoder_answers_end_of_stream() {
    let mut decoder = Decoder::new(Value::I32(1));
    assert_eq!(decoder.decode(&Shape::Bool, DEPTH), Err(DecoderError::Syntax));
    assert_eq!(decoder.decode(&Shape::I32, DEPTH), Err(DecoderError::EndOfStream));
    let mut decoder = Decoder::new(Value::I32(1));
    assert_eq!(decoder.decode(&Shape::I32, DEPTH), Ok(Decoded::I32(1)));
    assert_eq!(decoder.decode(&Shape::I32, DEPTH), Err(DecoderError::EndOfStream));
    assert_eq!(decoder.take(), Err(DecoderError::EndOfStream));
}

#[test]
fn depth_limit_stops_deep_values() {
    assert_eq!(Decoder::new(Value::I32(1)).decode(&Shape::I32, 0), Err(DecoderError::DepthLimit));
    let nested = Value::Array(vec![Value::Array(vec![Value::I32(1)])]);
    let shape = Shape::List(Box::new(Shape::List(Box::new(Shape::I32))));
    assert_eq!(Decoder::new(nested).decode(&shape, 2), Err(DecoderError::DepthLimit));
    let nested = Value::Array(vec![Value::Array(vec![Value::I32(1)])]);
    assert_eq!(
        Decoder::new(nested).decode(&shape, 3),
        Ok(Decoded::List(vec![Decoded::List(vec![Decoded::I32(1)])]))
    );
}

#[test]
fn identifier_lookup() {
    let names = fields(vec![("a", Shape::I32), ("b", Shape::I32)]);
    assert_eq!(Decoder::new(Value::String(s("b"))).decode_identifier(&names), Ok(1));
    assert_eq!(
        Decoder::new(Value::String(s("z"))).decode_identifier(&names),
        Err(DecoderError::UnknownField(s("z")))
    );
    assert_eq!(Decoder::new(Value::I32(0)).decode_identifier(&names), Err(DecoderError::Syntax));
}

#[test]
fn visitor_builds_values() {
    let v = BsonVisitor;
    assert_eq!(v.visit_u64(u64::MAX), Value::I64(-1));
    assert_eq!(v.visit_u64(7), Value::I64(7));
    assert_eq!(v.visit_i8(-3), Value::I32(-3));
    assert_eq!(v.visit_i16(300), Value::I32(300));
    assert_eq!(v.visit_str("abc"), Value::String(s("abc")));
    assert_eq!(v.visit_unit(), Value::Null);
    assert_eq!(v.visit_none(), Value::Null);
    assert_eq!(v.visit_seq(vec![Value::Boolean(false)]), Value::Array(vec![Value::Boolean(false)]));
    assert_eq!(
        v.visit_map(vec![(s("k"), Value::I64(2))]),
        doc(vec![("k", Value::I64(2))])
    );
}

#[test]
fn empty_array_is_offered_as_unit() {
    assert_eq!(decode(Value::Array(vec![]), &Shape::Unit), Ok(Decoded::Unit));
    assert_eq!(
        decode(Value::Array(vec![]), &Shape::List(Box::new(Shape::I32))),
        Ok(Decoded::List(vec![]))
    );
    assert_eq!(decode(Value::Array(vec![]), &Shape::Tuple(vec![])), Ok(Decoded::List(vec![])));
    assert_eq!(
        decode(Value::Array(vec![]), &Shape::Tuple(vec![Shape::I32])),
        Err(DecoderError::Syntax)
    );
}
