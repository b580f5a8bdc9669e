//! A type-directed decoder from dynamic document values into typed values.
//!
//! A caller describes the target with a [`Shape`]; the [`Decoder`] and its
//! cursors walk a [`Value`] tree and either reconstruct a [`Decoded`] value of
//! that shape or report a [`DecoderError`].
use vstd::prelude::*;

pub mod value;
pub mod shape;
pub mod error;
pub mod semantics;
pub mod decoder;
pub mod laws;

pub use decoder::{Decoder, MapDecoder, SeqDecoder, VariantDecoder};
pub use error::DecoderError;
pub use shape::{Decoded, Shape};
pub use value::{BsonVisitor, Value};
