use vstd::prelude::*;

verus! {

/// Why a decode failed.
#[derive(Debug, PartialEq)]
pub enum DecoderError {
    /// A value was requested from an already-empty slot.
    EndOfStream,
    /// A union was requested from a value that is not a document.
    ExpectedEnum,
    /// A union was requested from a document with more than one entry.
    ExpectedSingleKeyMap,
    /// A union was requested from a document with no entry.
    ExpectedVariantName,
    /// A positional variant payload is not an array.
    ExpectedTuple,
    /// A named-field variant payload is not a document.
    ExpectedStruct,
    /// A fixed-length sequence left this many source elements unread.
    LengthMismatch(usize),
    /// A map key names no field of the target record.
    UnknownField(String),
    /// A union discriminant names no variant of the target union.
    UnknownVariant(String),
    /// The value's kind does not fit the requested shape.
    Syntax,
    /// The value is nested deeper than the decode was allowed to go.
    DepthLimit,
}

} // verus!
