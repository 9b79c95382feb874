//! The type registry: declared-type tokens and the closed set of field types.
use vstd::prelude::*;

use crate::text::{chars_eq, chars_of};

verus! {

/// The primitive types that a field can be declared with.
#[derive(Clone, Copy, Debug, PartialEq, Eq, Structural)]
pub enum FieldType {
    Str,
    Int,
    Float,
    Bool,
    DateTime,
    Date,
    Time,
    Uuid,
    Decimal,
}

/// The record-field token table. It is case-sensitive; UUID and decimal
/// have no token here, they are reached through their own coercers only.
pub open spec fn field_type_of(token: Seq<char>) -> Option<FieldType> {
    if token == "str"@ {
        Some(FieldType::Str)
    } else if token == "int"@ {
        Some(FieldType::Int)
    } else if token == "float"@ {
        Some(FieldType::Float)
    } else if token == "bool"@ {
        Some(FieldType::Bool)
    } else if token == "datetime.datetime"@ {
        Some(FieldType::DateTime)
    } else if token == "datetime.date"@ {
        Some(FieldType::Date)
    } else if token == "datetime.time"@ {
        Some(FieldType::Time)
    } else {
        None
    }
}

fn is_token(t: &Vec<char>, lit: &str) -> (r: bool)
    ensures
        r == (t@ == lit@),
{
    chars_eq(t, &chars_of(lit))
}

impl FieldType {
    /// Resolves a declared-type token; `None` for a token outside the table.
    pub fn from_str(token: &str) -> (r: Option<FieldType>)
        ensures
            r == field_type_of(token@),
    {
        let t = chars_of(token);
        if is_token(&t, "str") {
            Some(FieldType::Str)
        } else if is_token(&t, "int") {
            Some(FieldType::Int)
        } else if is_token(&t, "float") {
            Some(FieldType::Float)
        } else if is_token(&t, "bool") {
            Some(FieldType::Bool)
        } else if is_token(&t, "datetime.datetime") {
            Some(FieldType::DateTime)
        } else if is_token(&t, "datetime.date") {
            Some(FieldType::Date)
        } else if is_token(&t, "datetime.time") {
            Some(FieldType::Time)
        } else {
            None
        }
    }
}

} // verus!
