use datamodel::coerce::{
    to_boolean, to_decimal, to_float, to_integer, to_string, to_uuid, to_uuid_str,
};
use datamodel::error::ErrorKind;
use datamodel::field::FieldType;
use datamodel::numeric::{is_float_literal, parse_i64, Decimal};
use datamodel::temporal::Date;
use datamodel::value::{CoercedValue, Value, ValueKind};

fn text(s: &str) -> Value {
    Value::Str(s.to_string())
}

#[test]
fn null_converts_to_none() {
    assert_eq!(to_string(&Value::Null).unwrap(), None);
    assert_eq!(to_boolean(&Value::Null).unwrap(), None);
    assert_eq!(to_integer(&Value::Null).unwrap(), None);
    assert_eq!(to_float(&Value::Null).unwrap(), None);
    assert_eq!(to_decimal(&Value::Null).unwrap(), None);
    assert_eq!(to_uuid(&Value::Null), None);
}

#[test]
fn string_from_text_and_bytes() {
    assert_eq!(to_string(&text("abc")).unwrap(), Some("abc".to_string()));
    assert_eq!(to_string(&Value::Bytes("héllo".as_bytes().to_vec())).unwrap(), Some("héllo".to_string()));
    assert!(matches!(to_string(&Value::Bytes(vec![0xff, 0xfe])), Err(ErrorKind::DecodeError)));
    assert!(matches!(
        to_string(&Value::Int(3)),
        Err(ErrorKind::CoercionError { declared_type: FieldType::Str, found: ValueKind::Int, .. })
    ));
}

#[test]
fn boolean_from_value_and_text() {
    assert_eq!(to_boolean(&Value::Bool(true)).unwrap(), Some(true));
    assert_eq!(to_boolean(&text("off")).unwrap(), Some(false));
    assert!(matches!(to_boolean(&text("maybe")), Err(ErrorKind::InvalidBoolean { .. })));
    assert!(matches!(to_boolean(&Value::Int(1)), Err(ErrorKind::CoercionError { .. })));
}

#[test]
fn integer_from_text() {
    assert_eq!(to_integer(&text("42")).unwrap(), Some(42));
    assert_eq!(to_integer(&text("+7")).unwrap(), Some(7));
    assert_eq!(to_integer(&text("-9223372036854775808")).unwrap(), Some(i64::MIN));
    assert_eq!(to_integer(&text("9223372036854775807")).unwrap(), Some(i64::MAX));
    assert!(to_integer(&text("9223372036854775808")).is_err());
    assert!(to_integer(&text("forty-two")).is_err());
    assert!(to_integer(&text(" 7")).is_err());
    assert!(to_integer(&text("")).is_err());
    assert!(to_integer(&text("-")).is_err());
    assert_eq!(to_integer(&Value::Int(-5)).unwrap(), Some(-5));
}

#[test]
fn integer_grammar_matches_std() {
    for s in ["0", "007", "-0", "+", "1_000", "12a", "99999999999999999999", "-9223372036854775809", "١٢"] {
        assert_eq!(parse_i64(s), s.parse::<i64>().ok(), "{}", s);
    }
}

#[test]
fn float_grammar_matches_std() {
    for s in [
        "3.14", "1e10", "1E-5", "+.5", "5.", ".", "1e", "e5", "inf", "-Infinity", "NaN", "nan1",
        "1.2.3", "--1", " 1", "1e+", "0x10", "", "-", "1.5e3.0", "infin",
    ] {
        assert_eq!(is_float_literal(s), s.parse::<f64>().is_ok(), "{}", s);
    }
}

#[test]
fn float_keeps_its_text() {
    assert_eq!(to_float(&text("2.5")).unwrap(), Some("2.5".to_string()));
    assert_eq!(to_float(&Value::Float("0.1".to_string())).unwrap(), Some("0.1".to_string()));
    assert!(to_float(&text("two")).is_err());
}

#[test]
fn decimal_is_exact() {
    assert_eq!(to_decimal(&text("19.99")).unwrap(), Some(Decimal { mantissa: 1999, scale: 2 }));
    assert_eq!(to_decimal(&text("-0.001")).unwrap(), Some(Decimal { mantissa: -1, scale: 3 }));
    assert!(to_decimal(&text("1.2.3")).is_err());
    assert!(to_decimal(&Value::Float("0.1".to_string())).is_err());
}

#[test]
fn uuid_is_lenient() {
    let s = "67e55044-10b1-426f-9247-bb680e5fe0c8";
    assert_eq!(to_uuid(&text(s)), Some(0x67e5504410b1426f9247bb680e5fe0c8));
    assert_eq!(to_uuid(&text("67e5504410b1426f9247bb680e5fe0c8")), Some(0x67e5504410b1426f9247bb680e5fe0c8));
    assert_eq!(to_uuid(&Value::Uuid(7)), Some(7));
    assert_eq!(to_uuid(&text("not-a-uuid")), None);
    assert_eq!(to_uuid(&Value::Int(3)), None);
    assert_eq!(to_uuid_str(s), Some(s.to_string()));
    assert_eq!(to_uuid_str("zzz"), None);
}

#[test]
fn resolved_source_is_looked_through_once() {
    let once = Value::Resolved(Box::new(text("42")));
    assert_eq!(to_integer(&once).unwrap(), Some(42));
    let twice = Value::Resolved(Box::new(Value::Resolved(Box::new(text("42")))));
    assert!(matches!(
        to_integer(&twice),
        Err(ErrorKind::CoercionError { declared_type: FieldType::Int, found: ValueKind::Resolved, .. })
    ));
}

#[test]
fn parse_dispatches_on_field_type() {
    match FieldType::Date.parse(&text("2024-03-01")) {
        Ok(CoercedValue::Date(d)) => assert_eq!(d, Date { year: 2024, month: 3, day: 1 }),
        other => panic!("unexpected {:?}", other),
    }
    let v = FieldType::Int.parse(&text("12")).unwrap();
    assert!(FieldType::Int.validate(&v));
    assert!(!FieldType::Str.validate(&v));
}

fn refused_repr(r: Result<Option<impl std::fmt::Debug>, ErrorKind>) -> (FieldType, String) {
    match r {
        Err(ErrorKind::CoercionError { declared_type, raw_repr, .. }) => (declared_type, raw_repr),
        other => panic!("unexpected {:?}", other),
    }
}

#[test]
fn refusals_name_the_offending_value() {
    assert_eq!(refused_repr(to_integer(&text("forty-two"))), (FieldType::Int, "forty-two".to_string()));
    assert_eq!(refused_repr(to_float(&text("abc"))), (FieldType::Float, "abc".to_string()));
    assert_eq!(refused_repr(to_decimal(&text("abc"))), (FieldType::Decimal, "abc".to_string()));
    assert_eq!(refused_repr(to_string(&Value::Int(-42))), (FieldType::Str, "-42".to_string()));
    assert_eq!(
        refused_repr(to_string(&Value::Int(i64::MIN))),
        (FieldType::Str, "-9223372036854775808".to_string())
    );
    assert_eq!(refused_repr(to_string(&Value::Int(0))), (FieldType::Str, "0".to_string()));
    assert_eq!(refused_repr(to_integer(&Value::Bool(true))), (FieldType::Int, "true".to_string()));
    assert_eq!(
        refused_repr(to_decimal(&Value::Float("0.1".to_string()))),
        (FieldType::Decimal, "0.1".to_string())
    );
}

#[test]
fn plain_decimals_are_exact() {
    assert_eq!(to_decimal(&text("+0.50")).unwrap(), Some(Decimal { mantissa: 50, scale: 2 }));
    assert_eq!(to_decimal(&text("-0.0")).unwrap(), Some(Decimal { mantissa: 0, scale: 1 }));
    assert_eq!(
        to_decimal(&text("1234567890123456789.012345678")).unwrap(),
        Some(Decimal { mantissa: 1234567890123456789012345678, scale: 9 })
    );
}

#[test]
fn uuid_value_is_big_endian_in_either_case() {
    assert_eq!(to_uuid(&text("00000000-0000-0000-0000-0000000000FF")), Some(255));
    assert_eq!(to_uuid(&text("{67E55044-10B1-426F-9247-BB680E5FE0C8}")), Some(0x67e5504410b1426f9247bb680e5fe0c8));
    assert_eq!(to_uuid(&text("67e55044-10b1-426f-9247-bb680e5fe0c")), None);
}
