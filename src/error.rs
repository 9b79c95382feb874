//! The error taxonomy of coercion and validation.
use vstd::prelude::*;

use crate::field::FieldType;
use crate::value::ValueKind;

verus! {

/// Why a value could not be coerced or validated.
#[derive(Debug)]
pub enum ErrorKind {
    /// The temporal input was empty or held only whitespace.
    EmptyInput,
    /// No temporal format matched; lists every format that was attempted.
    UnparseableTemporal { input: String, formats_tried: Vec<String> },
    /// A timestamp whose whole seconds fall outside the calendar range.
    OutOfRange { seconds: i64, microsecond: u32 },
    /// A token outside the truth table.
    InvalidBoolean { token: String },
    /// A value that the declared type does not accept: its kind and its
    /// rendering (a text as it is, an integer in decimal, any other value
    /// by the name of its kind).
    CoercionError { declared_type: FieldType, found: ValueKind, raw_repr: String },
    /// A declared-type token outside the registry.
    Unsupported { type_token: String },
    /// Bytes that are not valid UTF-8.
    DecodeError,
}

/// `ErrorKind` with its text as character sequences.
pub enum ErrorView {
    EmptyInput,
    UnparseableTemporal { input: Seq<char>, formats_tried: Seq<Seq<char>> },
    OutOfRange { seconds: i64, microsecond: u32 },
    InvalidBoolean { token: Seq<char> },
    CoercionError { declared_type: FieldType, found: ValueKind, raw_repr: Seq<char> },
    Unsupported { type_token: Seq<char> },
    DecodeError,
}

/// The texts of a list of strings.
pub open spec fn strings_view(v: Seq<String>) -> Seq<Seq<char>> {
    v.map_values(|s: String| s@)
}

impl View for ErrorKind {
    type V = ErrorView;

    open spec fn view(&self) -> ErrorView {
        match self {
            ErrorKind::EmptyInput => ErrorView::EmptyInput,
            ErrorKind::UnparseableTemporal { input, formats_tried } => ErrorView::UnparseableTemporal {
                input: input@,
                formats_tried: strings_view(formats_tried@),
            },
            ErrorKind::OutOfRange { seconds, microsecond } => ErrorView::OutOfRange {
                seconds: *seconds,
                microsecond: *microsecond,
            },
            ErrorKind::InvalidBoolean { token } => ErrorView::InvalidBoolean { token: token@ },
            ErrorKind::CoercionError { declared_type, found, raw_repr } => ErrorView::CoercionError {
                declared_type: *declared_type,
                found: *found,
                raw_repr: raw_repr@,
            },
            ErrorKind::Unsupported { type_token } => ErrorView::Unsupported { type_token: type_token@ },
            ErrorKind::DecodeError => ErrorView::DecodeError,
        }
    }
}

} // verus!
