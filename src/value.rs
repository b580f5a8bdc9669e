use vstd::prelude::*;

verus! {

/// A node of a dynamic document tree.
#[derive(Debug, PartialEq)]
pub enum Value {
    Null,
    Boolean(bool),
    I32(i32),
    I64(i64),
    /// A double, held as its IEEE-754 bit pattern.
    FloatingPoint(u64),
    String(String),
    Array(Vec<Value>),
    /// Key/value pairs in insertion order.
    Document(Vec<(String, Value)>),
    /// A domain-specific value (an identifier, a timestamp, a binary blob),
    /// held in its extended document form.
    Extended(Vec<(String, Value)>),
}

impl Value {
    /// The document form under which a value is decoded as a map: the
    /// entries of a document, or the extended form of a domain-specific value.
    pub open spec fn document_form(&self) -> Option<Seq<(String, Value)>> {
        match self {
            Value::Document(es) => Some(es@),
            Value::Extended(es) => Some(es@),
            _ => None,
        }
    }

    /// Turns a domain-specific value into its document form; a document is
    /// returned as it is, and other values give `None`.
    pub fn to_extended_document(self) -> (r: Option<Vec<(String, Value)>>)
        ensures
            match r {
                Some(es) => self.document_form() == Some(es@),
                None => self.document_form() is None,
            },
    {
        match self {
            Value::Document(es) => Some(es),
            Value::Extended(es) => Some(es),
            _ => None,
        }
    }
}

/// Builds a dynamic value from what a source offers: each callback gives
/// the value of the matching kind.
pub struct BsonVisitor;

impl BsonVisitor {
    pub fn visit_bool(&self, value: bool) -> (r: Value)
        ensures
            r == Value::Boolean(value),
    {
        Value::Boolean(value)
    }

    pub fn visit_i8(&self, value: i8) -> (r: Value)
        ensures
            r == Value::I32(value as i32),
    {
        Value::I32(value as i32)
    }

    pub fn visit_i16(&self, value: i16) -> (r: Value)
        ensures
            r == Value::I32(value as i32),
    {
        Value::I32(value as i32)
    }

    pub fn visit_i32(&self, value: i32) -> (r: Value)
        ensures
            r == Value::I32(value),
    {
        Value::I32(value)
    }

    pub fn visit_i64(&self, value: i64) -> (r: Value)
        ensures
            r == Value::I64(value),
    {
        Value::I64(value)
    }

    /// An unsigned integer is stored as the 64-bit integer of the same bits.
    pub fn visit_u64(&self, value: u64) -> (r: Value)
        ensures
            value <= i64::MAX ==> r == Value::I64(value as i64),
            value > i64::MAX ==> r == Value::I64((value - 0x1_0000_0000_0000_0000int) as i64),
    {
        if value <= i64::MAX as u64 {
            Value::I64(value as i64)
        } else {
            Value::I64(i64::MIN + (value - 0x8000_0000_0000_0000u64) as i64)
        }
    }

    /// A double, given as its IEEE-754 bit pattern.
    pub fn visit_f64(&self, bits: u64) -> (r: Value)
        ensures
            r == Value::FloatingPoint(bits),
    {
        Value::FloatingPoint(bits)
    }

    pub fn visit_str(&self, value: &str) -> (r: Value)
        ensures
            r matches Value::String(s) && s@ == value@,
    {
        Value::String(value.to_owned())
    }

    pub fn visit_string(&self, value: String) -> (r: Value)
        ensures
            r == Value::String(value),
    {
        Value::String(value)
    }

    pub fn visit_none(&self) -> (r: Value)
        ensures
            r == Value::Null,
    {
        Value::Null
    }

    pub fn visit_unit(&self) -> (r: Value)
        ensures
            r == Value::Null,
    {
        Value::Null
    }

    /// The elements of a sequence, as an array.
    pub fn visit_seq(&self, values: Vec<Value>) -> (r: Value)
        ensures
            r == Value::Array(values),
    {
        Value::Array(values)
    }

    /// The entries of a map, in order, as a document.
    pub fn visit_map(&self, entries: Vec<(String, Value)>) -> (r: Value)
        ensures
            r == Value::Document(entries),
    {
        Value::Document(entries)
    }
}

} // verus!
