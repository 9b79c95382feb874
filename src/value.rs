//! Raw field values as the host hands them over, and coerced values.
use vstd::prelude::*;

use crate::field::FieldType;
use crate::numeric::Decimal;
use crate::temporal::{Date, DateTime, TimeOfDay};
use crate::text::string_of;

verus! {

/// A raw field value.
///
/// A binary float is carried as its decimal text (the host's shortest
/// round-trip rendering). A resolvable source is carried together with what
/// its single invocation returned; a source found inside that result is not
/// invoked again.
#[derive(Debug)]
pub enum Value {
    Null,
    Str(String),
    Bytes(Vec<u8>),
    Int(i64),
    Float(String),
    Bool(bool),
    Date(Date),
    DateTime(DateTime),
    Time(TimeOfDay),
    Uuid(u128),
    Decimal(Decimal),
    Resolved(Box<Value>),
    /// Any other host value, by the name of its type.
    Other(String),
}

/// The variant of a raw value, without its contents.
#[derive(Clone, Copy, Debug, PartialEq, Eq, Structural)]
pub enum ValueKind {
    Null,
    Str,
    Bytes,
    Int,
    Float,
    Bool,
    Date,
    DateTime,
    Time,
    Uuid,
    Decimal,
    Resolved,
    Other,
}

pub open spec fn kind_of(v: Value) -> ValueKind {
    match v {
        Value::Null => ValueKind::Null,
        Value::Str(_) => ValueKind::Str,
        Value::Bytes(_) => ValueKind::Bytes,
        Value::Int(_) => ValueKind::Int,
        Value::Float(_) => ValueKind::Float,
        Value::Bool(_) => ValueKind::Bool,
        Value::Date(_) => ValueKind::Date,
        Value::DateTime(_) => ValueKind::DateTime,
        Value::Time(_) => ValueKind::Time,
        Value::Uuid(_) => ValueKind::Uuid,
        Value::Decimal(_) => ValueKind::Decimal,
        Value::Resolved(_) => ValueKind::Resolved,
        Value::Other(_) => ValueKind::Other,
    }
}

impl Value {
    pub fn kind(&self) -> (r: ValueKind)
        ensures
            r == kind_of(*self),
    {
        match self {
            Value::Null => ValueKind::Null,
            Value::Str(_) => ValueKind::Str,
            Value::Bytes(_) => ValueKind::Bytes,
            Value::Int(_) => ValueKind::Int,
            Value::Float(_) => ValueKind::Float,
            Value::Bool(_) => ValueKind::Bool,
            Value::Date(_) => ValueKind::Date,
            Value::DateTime(_) => ValueKind::DateTime,
            Value::Time(_) => ValueKind::Time,
            Value::Uuid(_) => ValueKind::Uuid,
            Value::Decimal(_) => ValueKind::Decimal,
            Value::Resolved(_) => ValueKind::Resolved,
            Value::Other(_) => ValueKind::Other,
        }
    }
}

pub open spec fn digit_char(d: int) -> char {
    ((d + 48) as u8) as char
}

/// The decimal digits of a natural number, without leading zeros.
pub open spec fn nat_text(n: nat) -> Seq<char>
    decreases n,
{
    if n < 10 {
        seq![digit_char(n as int)]
    } else {
        nat_text(n / 10).push(digit_char((n % 10) as int))
    }
}

/// An integer in decimal, with a leading `-` when negative.
pub open spec fn int_text(i: int) -> Seq<char> {
    if i < 0 {
        seq!['-'] + nat_text((-i) as nat)
    } else {
        nat_text(i as nat)
    }
}

/// How a refused value is named in an error: a text (or a float's text, or
/// a host type's name) as it is, an integer in decimal, anything else by
/// the name of its kind.
pub open spec fn repr_of(v: Value) -> Seq<char> {
    match v {
        Value::Null => "null"@,
        Value::Str(s) => s@,
        Value::Bytes(_) => "bytes"@,
        Value::Int(i) => int_text(i as int),
        Value::Float(t) => t@,
        Value::Bool(b) => if b {
            "true"@
        } else {
            "false"@
        },
        Value::Date(_) => "date"@,
        Value::DateTime(_) => "datetime"@,
        Value::Time(_) => "time"@,
        Value::Uuid(_) => "uuid"@,
        Value::Decimal(_) => "decimal"@,
        Value::Resolved(_) => "resolved source"@,
        Value::Other(n) => n@,
    }
}

fn push_nat_text(n: u64, out: &mut Vec<char>)
    ensures
        final(out)@ == old(out)@ + nat_text(n as nat),
    decreases n,
{
    if n >= 10 {
        push_nat_text(n / 10, out);
    }
    let d = (n % 10) as u8;
    out.push((d + 48u8) as char);
    proof {
        if n >= 10 {
            assert(old(out)@ + nat_text(n as nat) =~= old(out)@ + nat_text((n / 10) as nat) + seq![
                digit_char((n % 10) as int),
            ]);
        } else {
            assert(old(out)@ + nat_text(n as nat) =~= old(out)@.push(digit_char(n as int)));
        }
    }
}

/// An integer in decimal.
pub fn int_to_text(i: i64) -> (r: String)
    ensures
        r@ == int_text(i as int),
{
    let mut out: Vec<char> = Vec::new();
    if i < 0 {
        out.push('-');
        let magnitude: u64 = if i == i64::MIN {
            0x8000_0000_0000_0000
        } else {
            (-i) as u64
        };
        push_nat_text(magnitude, &mut out);
        proof {
            assert(out@ =~= seq!['-'] + nat_text((-i) as nat));
        }
    } else {
        push_nat_text(i as u64, &mut out);
        proof {
            assert(out@ =~= nat_text(i as nat));
        }
    }
    string_of(&out)
}

impl Value {
    /// The rendering of a value that names it in an error.
    pub fn repr(&self) -> (r: String)
        ensures
            r@ == repr_of(*self),
    {
        match self {
            Value::Null => "null".to_string(),
            Value::Str(s) => s.clone(),
            Value::Bytes(_) => "bytes".to_string(),
            Value::Int(i) => int_to_text(*i),
            Value::Float(t) => t.clone(),
            Value::Bool(b) => if *b {
                "true".to_string()
            } else {
                "false".to_string()
            },
            Value::Date(_) => "date".to_string(),
            Value::DateTime(_) => "datetime".to_string(),
            Value::Time(_) => "time".to_string(),
            Value::Uuid(_) => "uuid".to_string(),
            Value::Decimal(_) => "decimal".to_string(),
            Value::Resolved(_) => "resolved source".to_string(),
            Value::Other(n) => n.clone(),
        }
    }
}

/// A value in the native representation of its type.
#[derive(Debug)]
pub enum CoercedValue {
    Str(String),
    Int(i64),
    Float(String),
    Bool(bool),
    Date(Date),
    DateTime(DateTime),
    Time(TimeOfDay),
    Uuid(u128),
    Decimal(Decimal),
}

/// `CoercedValue` with its text as character sequences.
pub enum CoercedView {
    Str(Seq<char>),
    Int(i64),
    Float(Seq<char>),
    Bool(bool),
    Date(Date),
    DateTime(DateTime),
    Time(TimeOfDay),
    Uuid(u128),
    Decimal(Decimal),
}

impl View for CoercedValue {
    type V = CoercedView;

    open spec fn view(&self) -> CoercedView {
        match self {
            CoercedValue::Str(s) => CoercedView::Str(s@),
            CoercedValue::Int(i) => CoercedView::Int(*i),
            CoercedValue::Float(s) => CoercedView::Float(s@),
            CoercedValue::Bool(b) => CoercedView::Bool(*b),
            CoercedValue::Date(d) => CoercedView::Date(*d),
            CoercedValue::DateTime(d) => CoercedView::DateTime(*d),
            CoercedValue::Time(t) => CoercedView::Time(*t),
            CoercedValue::Uuid(u) => CoercedView::Uuid(*u),
            CoercedValue::Decimal(d) => CoercedView::Decimal(*d),
        }
    }
}

/// The field type whose native representation a coerced value is.
pub open spec fn type_of_coerced(v: CoercedView) -> FieldType {
    match v {
        CoercedView::Str(_) => FieldType::Str,
        CoercedView::Int(_) => FieldType::Int,
        CoercedView::Float(_) => FieldType::Float,
        CoercedView::Bool(_) => FieldType::Bool,
        CoercedView::Date(_) => FieldType::Date,
        CoercedView::DateTime(_) => FieldType::DateTime,
        CoercedView::Time(_) => FieldType::Time,
        CoercedView::Uuid(_) => FieldType::Uuid,
        CoercedView::Decimal(_) => FieldType::Decimal,
    }
}

impl FieldType {
    /// The type-consistency check: whether `value` is tagged with this type.
    pub fn validate(&self, value: &CoercedValue) -> (r: bool)
        ensures
            r == (type_of_coerced(value@) == *self),
    {
        let t = match value {
            CoercedValue::Str(_) => FieldType::Str,
            CoercedValue::Int(_) => FieldType::Int,
            CoercedValue::Float(_) => FieldType::Float,
            CoercedValue::Bool(_) => FieldType::Bool,
            CoercedValue::Date(_) => FieldType::Date,
            CoercedValue::DateTime(_) => FieldType::DateTime,
            CoercedValue::Time(_) => FieldType::Time,
            CoercedValue::Uuid(_) => FieldType::Uuid,
            CoercedValue::Decimal(_) => FieldType::Decimal,
        };
        t == *self
    }
}

} // verus!
