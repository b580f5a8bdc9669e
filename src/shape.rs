use vstd::prelude::*;
use crate::value::Value;

verus! {

broadcast use vstd::std_specs::vec::group_vec_axioms;

/// What a target type expects to be reconstructed from.
#[derive(Debug)]
pub enum Shape {
    Unit,
    Bool,
    I32,
    /// A 64-bit integer; 32-bit source integers widen into it.
    I64,
    F64,
    Str,
    /// Any value at all, taken as it stands.
    Any,
    /// `None` from null, otherwise `Some` of the inner shape.
    Optional(Box<Shape>),
    /// A transparent wrapper around the inner shape.
    Newtype(Box<Shape>),
    /// A sequence of any length, each element of the inner shape.
    List(Box<Shape>),
    /// A sequence of exactly these element shapes.
    Tuple(Vec<Shape>),
    /// Named fields, each with its shape.
    Record(Vec<(String, Shape)>),
    /// Named variants, each with its payload shape: `Unit` for none, `Tuple`
    /// for positional fields, `Record` for named fields, any other shape for a
    /// single payload value.
    Union(Vec<(String, Shape)>),
}

/// A reconstructed typed value.
#[derive(Debug, PartialEq)]
pub enum Decoded {
    Unit,
    Bool(bool),
    I32(i32),
    I64(i64),
    /// A double, as its IEEE-754 bit pattern.
    F64(u64),
    Str(String),
    /// An absent optional value.
    Nothing,
    /// A present optional value.
    Just(Box<Decoded>),
    /// The elements of a list or tuple.
    List(Vec<Decoded>),
    /// The fields of a record, in the order the shape declares them.
    Record(Vec<Decoded>),
    /// The index of the variant in the union's list, and its payload.
    Variant(usize, Box<Decoded>),
    /// A value taken as it stands.
    Dynamic(Value),
}

/// The mathematical content of a [`Decoded`] value.
pub enum Out {
    Unit,
    Bool(bool),
    I32(i32),
    I64(i64),
    F64(u64),
    Str(String),
    Nothing,
    Just(Box<Out>),
    List(Seq<Out>),
    Record(Seq<Out>),
    Variant(usize, Box<Out>),
    Dynamic(Value),
}

pub open spec fn seq_model(v: Seq<Decoded>) -> Seq<Out> {
    Seq::new(v.len(), |i: int| if 0 <= i < v.len() { v[i].model() } else { Out::Unit })
}

impl Decoded {
    pub open spec fn model(&self) -> Out
        decreases self,
    {
        match self {
            Decoded::Unit => Out::Unit,
            Decoded::Bool(b) => Out::Bool(*b),
            Decoded::I32(x) => Out::I32(*x),
            Decoded::I64(x) => Out::I64(*x),
            Decoded::F64(x) => Out::F64(*x),
            Decoded::Str(s) => Out::Str(*s),
            Decoded::Nothing => Out::Nothing,
            Decoded::Just(b) => Out::Just(Box::new(b.model())),
            Decoded::List(v) => Out::List(
                Seq::new(v@.len(), |i: int| if 0 <= i < v@.len() { v@[i].model() } else { Out::Unit }),
            ),
            Decoded::Record(v) => Out::Record(
                Seq::new(v@.len(), |i: int| if 0 <= i < v@.len() { v@[i].model() } else { Out::Unit }),
            ),
            Decoded::Variant(i, b) => Out::Variant(*i, Box::new(b.model())),
            Decoded::Dynamic(v) => Out::Dynamic(*v),
        }
    }
}

} // verus!
