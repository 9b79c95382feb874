//! The validation orchestrator: every field is coerced and checked on its
//! own, and the outcomes come back in the order of the fields.
use vstd::prelude::*;

use crate::coerce::{coerce_spec, mismatch};
use crate::error::{ErrorKind, ErrorView};
use crate::field::{field_type_of, FieldType};
use crate::value::{type_of_coerced, Value};

verus! {

/// One field of a record: its name, its declared-type token and its raw
/// value.
#[derive(Debug)]
pub struct FieldDescriptor {
    pub name: String,
    pub type_token: String,
    pub value: Value,
}

/// The verdict on one field.
#[derive(Debug)]
pub struct ValidationOutcome {
    pub field_name: String,
    pub valid: bool,
    pub error: Option<ErrorKind>,
}

pub open spec fn error_view(e: Option<ErrorKind>) -> Option<ErrorView> {
    match e {
        Some(k) => Some(k@),
        None => None,
    }
}

/// The verdict on a field: validity and error. An unknown token is
/// reported as `Unsupported`; otherwise the value is coerced to the
/// declared type and the coerced value's tag checked against that type.
pub open spec fn field_verdict(token: Seq<char>, v: Value) -> (bool, Option<ErrorView>) {
    match field_type_of(token) {
        None => (false, Some(ErrorView::Unsupported { type_token: token })),
        Some(ft) => match coerce_spec(ft, v) {
            Ok(c) => if type_of_coerced(c) == ft {
                (true, None)
            } else {
                (false, Some(mismatch(ft, v)))
            },
            Err(e) => (false, Some(e)),
        },
    }
}

pub open spec fn verdict_of(fd: FieldDescriptor) -> (bool, Option<ErrorView>) {
    field_verdict(fd.type_token@, fd.value)
}

/// What an outcome says of its field: name, validity and error.
pub open spec fn outcome_view(o: ValidationOutcome) -> (Seq<char>, bool, Option<ErrorView>) {
    (o.field_name@, o.valid, error_view(o.error))
}

pub open spec fn expected_outcome(fd: FieldDescriptor) -> (Seq<char>, bool, Option<ErrorView>) {
    (fd.name@, verdict_of(fd).0, verdict_of(fd).1)
}

/// The outcomes of a whole record, field by field in order.
pub open spec fn record_outcomes(fields: Seq<FieldDescriptor>) -> Seq<(Seq<char>, bool, Option<ErrorView>)> {
    fields.map_values(|fd: FieldDescriptor| expected_outcome(fd))
}

/// Validates one field.
pub fn validate_field(fd: &FieldDescriptor) -> (r: ValidationOutcome)
    ensures
        outcome_view(r) == expected_outcome(*fd),
{
    let name = fd.name.clone();
    match FieldType::from_str(fd.type_token.as_str()) {
        None => ValidationOutcome {
            field_name: name,
            valid: false,
            error: Some(ErrorKind::Unsupported { type_token: fd.type_token.clone() }),
        },
        Some(ft) => match ft.parse(&fd.value) {
            Ok(c) => if ft.validate(&c) {
                ValidationOutcome { field_name: name, valid: true, error: None }
            } else {
                ValidationOutcome {
                    field_name: name,
                    valid: false,
                    error: Some(ErrorKind::CoercionError {
                        declared_type: ft,
                        found: fd.value.kind(),
                        raw_repr: fd.value.repr(),
                    }),
                }
            },
            Err(e) => ValidationOutcome { field_name: name, valid: false, error: Some(e) },
        },
    }
}

/// Validates every field of a record. One outcome per field, in the order
/// of the fields; a failing field never stops the others.
pub fn validate_datamodel(fields: &Vec<FieldDescriptor>) -> (r: Vec<ValidationOutcome>)
    ensures
        r@.len() == fields@.len(),
        forall|i: int| 0 <= i < r@.len() ==> outcome_view(#[trigger] r@[i]) == record_outcomes(fields@)[i],
{
    let mut r: Vec<ValidationOutcome> = Vec::new();
    let n = fields.len();
    let mut k: usize = 0;
    while k < n
        invariant
            k <= n == fields@.len(),
            r@.len() == k,
            forall|i: int| 0 <= i < k ==> outcome_view(#[trigger] r@[i]) == record_outcomes(fields@)[i],
        decreases n - k,
    {
        let o = validate_field(&fields[k]);
        r.push(o);
        k = k + 1;
    }
    r
}

/// A value that already has the native kind of `ft`.
pub open spec fn is_native(ft: FieldType, v: Value) -> bool {
    match ft {
        FieldType::Str => v is Str,
        FieldType::Int => v is Int,
        FieldType::Float => v is Float,
        FieldType::Bool => v is Bool,
        FieldType::DateTime => v is DateTime,
        FieldType::Date => v is Date,
        FieldType::Time => v is Time,
        FieldType::Uuid => v is Uuid,
        FieldType::Decimal => v is Decimal,
    }
}

/// A value that already matches its declared type validates, with no
/// error.
pub proof fn lemma_native_value_is_valid(token: Seq<char>, v: Value)
    requires
        field_type_of(token) matches Some(ft) && is_native(ft, v),
    ensures
        field_verdict(token, v) == (true, None::<ErrorView>),
{
}

/// An unknown type token fails its own field with `Unsupported`, and only
/// that field: every other field of the record keeps its outcome.
pub proof fn lemma_unsupported_is_isolated(fields: Seq<FieldDescriptor>, i: int, bad: FieldDescriptor)
    requires
        0 <= i < fields.len(),
        field_type_of(bad.type_token@) is None,
    ensures
        record_outcomes(fields.update(i, bad)).len() == fields.len(),
        record_outcomes(fields.update(i, bad))[i] == (
            bad.name@,
            false,
            Some(ErrorView::Unsupported { type_token: bad.type_token@ }),
        ),
        forall|j: int|
            0 <= j < fields.len() && j != i ==> #[trigger] record_outcomes(fields.update(i, bad))[j]
                == record_outcomes(fields)[j],
{
}

} // verus!
