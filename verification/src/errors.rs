//! The decode error taxonomy.
//!
//! Every refused wire value is reported as one of these: a resolver-level
//! structural mismatch carrying the list of shapes attempted, a field
//! whose value has the wrong type or an unparseable text, a required
//! field that is absent, a field bound twice where that is forbidden, or
//! a field a closed decoder does not know.

use vstd::prelude::*;

use crate::json::{JsonV, JsonValue};
use crate::parse::ParseError;

verus! {

/// Why a wire value was refused.
#[derive(Debug, PartialEq)]
pub enum DecodeError {
    /// No payload shape matched; carries the names of the shapes tried,
    /// in the order they were tried.
    NoShapeMatched { attempted: Vec<String> },
    /// A present field held this unusable value.
    InvalidValue { field: String, value: JsonValue },
    /// A required field was absent.
    MissingField { field: String },
    /// A field occurred twice in a decoder that forbids that.
    DuplicateField { field: String },
    /// A field a closed decoder does not accept.
    UnknownField { field: String },
}

/// The mathematical shape of a [`DecodeError`].
pub enum DecodeErrorV {
    NoShapeMatched { attempted: Seq<Seq<char>> },
    InvalidValue { field: Seq<char>, value: JsonV },
    MissingField { field: Seq<char> },
    DuplicateField { field: Seq<char> },
    UnknownField { field: Seq<char> },
}

impl View for DecodeError {
    type V = DecodeErrorV;

    open spec fn view(&self) -> DecodeErrorV {
        match self {
            DecodeError::NoShapeMatched { attempted } => DecodeErrorV::NoShapeMatched {
                attempted: Seq::new(attempted@.len(), |i: int| attempted@[i]@),
            },
            DecodeError::InvalidValue { field, value } => DecodeErrorV::InvalidValue {
                field: field@,
                value: value@,
            },
            DecodeError::MissingField { field } => DecodeErrorV::MissingField { field: field@ },
            DecodeError::DuplicateField { field } => DecodeErrorV::DuplicateField {
                field: field@,
            },
            DecodeError::UnknownField { field } => DecodeErrorV::UnknownField { field: field@ },
        }
    }
}

/// A refusal of response text: the text is not JSON, or the JSON does
/// not have an accepted shape.
#[derive(Debug, PartialEq)]
pub enum EnvelopeError {
    Syntax(ParseError),
    Shape(DecodeError),
}

/// The payload shape names, in the order the resolver tries them.
pub open spec fn shape_names() -> Seq<Seq<char>> {
    seq![
        "expression"@,
        "series"@,
        "labels or values"@,
        "targets"@,
        "rules"@,
        "alerts"@,
        "alert managers"@,
        "config"@,
        "snapshot"@,
        "flags"@,
    ]
}

} // verus!
