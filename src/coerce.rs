//! The scalar coercers and the dispatch from a field type to its coercer.
use vstd::prelude::*;
use vstd::utf8::{decode_utf8, valid_utf8};

use crate::error::{ErrorKind, ErrorView};
use crate::field::FieldType;
use crate::numeric::{
    decimal_text_of, i64_text_value, is_float_literal, is_float_text, parse_decimal, parse_i64,
    parse_uuid, uuid_text_of, Decimal,
};
use crate::temporal::{date_outcome, datetime_outcome, time_outcome, to_date, to_datetime, to_time};
use crate::text::{strtobool, truth_of};
use crate::value::{kind_of, repr_of, CoercedValue, CoercedView, Value};

verus! {

/// The error for a value of a kind that `ft` does not accept.
pub open spec fn mismatch(ft: FieldType, v: Value) -> ErrorView {
    ErrorView::CoercionError { declared_type: ft, found: kind_of(v), raw_repr: repr_of(v) }
}

/// Coercion of a value that is not (any longer) a resolvable source: the
/// native value is taken as it is, a text is parsed, anything else fails.
pub open spec fn coerce_final(ft: FieldType, v: Value) -> Result<CoercedView, ErrorView> {
    match ft {
        FieldType::Str => match v {
            Value::Str(s) => Ok(CoercedView::Str(s@)),
            Value::Bytes(b) => if valid_utf8(b@) {
                Ok(CoercedView::Str(decode_utf8(b@)))
            } else {
                Err(ErrorView::DecodeError)
            },
            _ => Err(mismatch(ft, v)),
        },
        FieldType::Int => match v {
            Value::Int(i) => Ok(CoercedView::Int(i)),
            Value::Str(s) => match i64_text_value(s@) {
                Some(i) => Ok(CoercedView::Int(i)),
                None => Err(mismatch(ft, v)),
            },
            _ => Err(mismatch(ft, v)),
        },
        FieldType::Float => match v {
            Value::Float(t) => Ok(CoercedView::Float(t@)),
            Value::Str(s) => if is_float_text(s@) {
                Ok(CoercedView::Float(s@))
            } else {
                Err(mismatch(ft, v))
            },
            _ => Err(mismatch(ft, v)),
        },
        FieldType::Bool => match v {
            Value::Bool(b) => Ok(CoercedView::Bool(b)),
            Value::Str(s) => match truth_of(s@) {
                Some(b) => Ok(CoercedView::Bool(b)),
                None => Err(ErrorView::InvalidBoolean { token: s@ }),
            },
            _ => Err(mismatch(ft, v)),
        },
        FieldType::Date => match v {
            Value::Date(d) => Ok(CoercedView::Date(d)),
            Value::Str(s) => match date_outcome(s@, None) {
                Ok(d) => Ok(CoercedView::Date(d)),
                Err(e) => Err(e),
            },
            _ => Err(mismatch(ft, v)),
        },
        FieldType::DateTime => match v {
            Value::DateTime(d) => Ok(CoercedView::DateTime(d)),
            Value::Str(s) => match datetime_outcome(s@, None) {
                Ok(d) => Ok(CoercedView::DateTime(d)),
                Err(e) => Err(e),
            },
            _ => Err(mismatch(ft, v)),
        },
        FieldType::Time => match v {
            Value::Time(t) => Ok(CoercedView::Time(t)),
            Value::Str(s) => match time_outcome(s@, None) {
                Ok(t) => Ok(CoercedView::Time(t)),
                Err(e) => Err(e),
            },
            _ => Err(mismatch(ft, v)),
        },
        FieldType::Uuid => match v {
            Value::Uuid(u) => Ok(CoercedView::Uuid(u)),
            Value::Str(s) => match uuid_text_of(s@) {
                Some(u) => Ok(CoercedView::Uuid(u)),
                None => Err(mismatch(ft, v)),
            },
            _ => Err(mismatch(ft, v)),
        },
        FieldType::Decimal => match v {
            Value::Decimal(d) => Ok(CoercedView::Decimal(d)),
            Value::Str(s) => match decimal_text_of(s@) {
                Some(d) => Ok(CoercedView::Decimal(d)),
                None => Err(mismatch(ft, v)),
            },
            _ => Err(mismatch(ft, v)),
        },
    }
}

/// Coercion of a raw value to `ft`. A resolved source is looked through
/// once; a source inside its result is a final value, of a kind that no
/// type accepts.
pub open spec fn coerce_spec(ft: FieldType, v: Value) -> Result<CoercedView, ErrorView> {
    match v {
        Value::Resolved(inner) => coerce_final(ft, *inner),
        _ => coerce_final(ft, v),
    }
}

pub open spec fn coerced_result_view(r: Result<CoercedValue, ErrorKind>) -> Result<CoercedView, ErrorView> {
    match r {
        Ok(v) => Ok(v@),
        Err(e) => Err(e@),
    }
}

/// Relies on std's `str::from_utf8`: `Some` exactly for valid UTF-8,
/// holding the text that the bytes encode.
#[verifier::external_body]
fn utf8_text(b: &[u8]) -> (r: Option<&str>)
    ensures
        r is Some <==> valid_utf8(b@),
        r matches Some(t) ==> t@ == decode_utf8(b@),
{
    std::str::from_utf8(b).ok()
}

fn mismatch_error(ft: FieldType, v: &Value) -> (r: ErrorKind)
    ensures
        r@ == mismatch(ft, *v),
{
    ErrorKind::CoercionError { declared_type: ft, found: v.kind(), raw_repr: v.repr() }
}

fn coerce_value(ft: FieldType, v: &Value) -> (r: Result<CoercedValue, ErrorKind>)
    ensures
        coerced_result_view(r) == coerce_final(ft, *v),
{
    match ft {
        FieldType::Str => match v {
            Value::Str(s) => Ok(CoercedValue::Str(s.clone())),
            Value::Bytes(b) => match utf8_text(b.as_slice()) {
                Some(t) => Ok(CoercedValue::Str(t.to_string())),
                None => Err(ErrorKind::DecodeError),
            },
            _ => Err(mismatch_error(ft, v)),
        },
        FieldType::Int => match v {
            Value::Int(i) => Ok(CoercedValue::Int(*i)),
            Value::Str(s) => match parse_i64(s.as_str()) {
                Some(i) => Ok(CoercedValue::Int(i)),
                None => Err(mismatch_error(ft, v)),
            },
            _ => Err(mismatch_error(ft, v)),
        },
        FieldType::Float => match v {
            Value::Float(t) => Ok(CoercedValue::Float(t.clone())),
            Value::Str(s) => if is_float_literal(s.as_str()) {
                Ok(CoercedValue::Float(s.clone()))
            } else {
                Err(mismatch_error(ft, v))
            },
            _ => Err(mismatch_error(ft, v)),
        },
        FieldType::Bool => match v {
            Value::Bool(b) => Ok(CoercedValue::Bool(*b)),
            Value::Str(s) => match strtobool(s.as_str()) {
                Ok(b) => Ok(CoercedValue::Bool(b)),
                Err(e) => Err(e),
            },
            _ => Err(mismatch_error(ft, v)),
        },
        FieldType::Date => match v {
            Value::Date(d) => Ok(CoercedValue::Date(*d)),
            Value::Str(s) => match to_date(s.as_str(), None) {
                Ok(d) => Ok(CoercedValue::Date(d)),
                Err(e) => Err(e),
            },
            _ => Err(mismatch_error(ft, v)),
        },
        FieldType::DateTime => match v {
            Value::DateTime(d) => Ok(CoercedValue::DateTime(*d)),
            Value::Str(s) => match to_datetime(s.as_str(), None) {
                Ok(d) => Ok(CoercedValue::DateTime(d)),
                Err(e) => Err(e),
            },
            _ => Err(mismatch_error(ft, v)),
        },
        FieldType::Time => match v {
            Value::Time(t) => Ok(CoercedValue::Time(*t)),
            Value::Str(s) => match to_time(s.as_str(), None) {
                Ok(t) => Ok(CoercedValue::Time(t)),
                Err(e) => Err(e),
            },
            _ => Err(mismatch_error(ft, v)),
        },
        FieldType::Uuid => match v {
            Value::Uuid(u) => Ok(CoercedValue::Uuid(*u)),
            Value::Str(s) => match parse_uuid(s.as_str()) {
                Some(u) => Ok(CoercedValue::Uuid(u)),
                None => Err(mismatch_error(ft, v)),
            },
            _ => Err(mismatch_error(ft, v)),
        },
        FieldType::Decimal => match v {
            Value::Decimal(d) => Ok(CoercedValue::Decimal(*d)),
            Value::Str(s) => match parse_decimal(s.as_str()) {
                Some(d) => Ok(CoercedValue::Decimal(d)),
                None => Err(mismatch_error(ft, v)),
            },
            _ => Err(mismatch_error(ft, v)),
        },
    }
}

impl FieldType {
    /// Coerces a raw value into the native representation of this type.
    pub fn parse(&self, value: &Value) -> (r: Result<CoercedValue, ErrorKind>)
        ensures
            coerced_result_view(r) == coerce_spec(*self, *value),
    {
        match value {
            Value::Resolved(inner) => coerce_value(*self, inner),
            _ => coerce_value(*self, value),
        }
    }
}

/// The outcome of a standalone conversion: `None` for a null value,
/// otherwise what coercion to `ft` gives.
pub open spec fn conversion_spec(ft: FieldType, v: Value) -> Result<Option<CoercedView>, ErrorView> {
    if v is Null {
        Ok(None)
    } else {
        match coerce_spec(ft, v) {
            Ok(c) => Ok(Some(c)),
            Err(e) => Err(e),
        }
    }
}

/// Converts a value to text: a text is kept, bytes are decoded as UTF-8.
pub fn to_string(value: &Value) -> (r: Result<Option<String>, ErrorKind>)
    ensures
        conversion_spec(FieldType::Str, *value) == match r {
            Ok(Some(s)) => Ok(Some(CoercedView::Str(s@))),
            Ok(None) => Ok(None),
            Err(e) => Err(e@),
        },
{
    if let Value::Null = value {
        return Ok(None);
    }
    match FieldType::Str.parse(value) {
        Ok(CoercedValue::Str(s)) => Ok(Some(s)),
        Ok(_) => Ok(None),
        Err(e) => Err(e),
    }
}

/// Converts a value to a boolean through the truth table.
pub fn to_boolean(value: &Value) -> (r: Result<Option<bool>, ErrorKind>)
    ensures
        conversion_spec(FieldType::Bool, *value) == match r {
            Ok(Some(b)) => Ok(Some(CoercedView::Bool(b))),
            Ok(None) => Ok(None),
            Err(e) => Err(e@),
        },
{
    if let Value::Null = value {
        return Ok(None);
    }
    match FieldType::Bool.parse(value) {
        Ok(CoercedValue::Bool(b)) => Ok(Some(b)),
        Ok(_) => Ok(None),
        Err(e) => Err(e),
    }
}

/// Converts a value to a 64-bit integer; a text must be a whole `i64`.
pub fn to_integer(value: &Value) -> (r: Result<Option<i64>, ErrorKind>)
    ensures
        conversion_spec(FieldType::Int, *value) == match r {
            Ok(Some(i)) => Ok(Some(CoercedView::Int(i))),
            Ok(None) => Ok(None),
            Err(e) => Err(e@),
        },
{
    if let Value::Null = value {
        return Ok(None);
    }
    match FieldType::Int.parse(value) {
        Ok(CoercedValue::Int(i)) => Ok(Some(i)),
        Ok(_) => Ok(None),
        Err(e) => Err(e),
    }
}

/// Converts a value to a float, given as its decimal text; a text must be a
/// float literal.
pub fn to_float(value: &Value) -> (r: Result<Option<String>, ErrorKind>)
    ensures
        conversion_spec(FieldType::Float, *value) == match r {
            Ok(Some(s)) => Ok(Some(CoercedView::Float(s@))),
            Ok(None) => Ok(None),
            Err(e) => Err(e@),
        },
{
    if let Value::Null = value {
        return Ok(None);
    }
    match FieldType::Float.parse(value) {
        Ok(CoercedValue::Float(s)) => Ok(Some(s)),
        Ok(_) => Ok(None),
        Err(e) => Err(e),
    }
}

/// Converts a value to an exact decimal; a text is read with no binary
/// rounding. A binary float is not taken here: its exact expansion is
/// made by the caller.
pub fn to_decimal(value: &Value) -> (r: Result<Option<Decimal>, ErrorKind>)
    ensures
        conversion_spec(FieldType::Decimal, *value) == match r {
            Ok(Some(d)) => Ok(Some(CoercedView::Decimal(d))),
            Ok(None) => Ok(None),
            Err(e) => Err(e@),
        },
{
    if let Value::Null = value {
        return Ok(None);
    }
    match FieldType::Decimal.parse(value) {
        Ok(CoercedValue::Decimal(d)) => Ok(Some(d)),
        Ok(_) => Ok(None),
        Err(e) => Err(e),
    }
}

/// Converts a value to a UUID, leniently: whatever is not a UUID gives
/// `None` rather than an error.
pub fn to_uuid(value: &Value) -> (r: Option<u128>)
    ensures
        r == match coerce_spec(FieldType::Uuid, *value) {
            Ok(CoercedView::Uuid(u)) => Some(u),
            _ => None,
        },
{
    match FieldType::Uuid.parse(value) {
        Ok(CoercedValue::Uuid(u)) => Some(u),
        _ => None,
    }
}

/// The text itself when it spells a UUID, else `None`.
pub fn to_uuid_str(s: &str) -> (r: Option<String>)
    ensures
        r is Some <==> uuid_text_of(s@) is Some,
        r matches Some(t) ==> t@ == s@,
{
    match parse_uuid(s) {
        Some(_) => Some(s.to_string()),
        None => None,
    }
}

} // verus!
