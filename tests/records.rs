use datamodel::error::ErrorKind;
use datamodel::temporal::{Date, DateTime, TimeOfDay};
use datamodel::numeric::Decimal;
use datamodel::validate::{validate_datamodel, validate_field, FieldDescriptor, ValidationOutcome};
use datamodel::value::Value;

fn field(name: &str, token: &str, value: Value) -> FieldDescriptor {
    FieldDescriptor { name: name.to_string(), type_token: token.to_string(), value }
}

fn text(s: &str) -> Value {
    Value::Str(s.to_string())
}

fn verdicts(r: &[ValidationOutcome]) -> Vec<(String, bool)> {
    r.iter().map(|o| (o.field_name.clone(), o.valid)).collect()
}

#[test]
fn record_example_validates() {
    let fields = vec![
        field("name", "str", text("Alice")),
        field("age", "int", text("42")),
        field("joined", "datetime.date", text("2024-03-01")),
    ];
    let r = validate_datamodel(&fields);
    assert_eq!(
        verdicts(&r),
        vec![("name".to_string(), true), ("age".to_string(), true), ("joined".to_string(), true)]
    );
    assert!(r.iter().all(|o| o.error.is_none()));
}

#[test]
fn record_example_with_bad_age() {
    let fields = vec![
        field("name", "str", text("Alice")),
        field("age", "int", text("forty-two")),
        field("joined", "datetime.date", text("2024-03-01")),
    ];
    let r = validate_datamodel(&fields);
    assert_eq!(
        verdicts(&r),
        vec![("name".to_string(), true), ("age".to_string(), false), ("joined".to_string(), true)]
    );
    assert!(matches!(r[1].error, Some(ErrorKind::CoercionError { .. })));
}

#[test]
fn unsupported_token_fails_only_its_field() {
    let fields = vec![
        field("a", "str", text("x")),
        field("z", "complex", text("1+2j")),
        field("b", "bool", text("yes")),
    ];
    let r = validate_datamodel(&fields);
    assert_eq!(verdicts(&r), vec![("a".to_string(), true), ("z".to_string(), false), ("b".to_string(), true)]);
    match &r[1].error {
        Some(ErrorKind::Unsupported { type_token }) => assert_eq!(type_token, "complex"),
        other => panic!("unexpected {:?}", other),
    }
}

#[test]
fn native_values_are_valid() {
    let dt = DateTime {
        date: Date { year: 2024, month: 3, day: 1 },
        time: TimeOfDay { hour: 1, minute: 2, second: 3, microsecond: 4 },
    };
    let fields = vec![
        field("s", "str", text("")),
        field("i", "int", Value::Int(-1)),
        field("f", "float", Value::Float("1.5".to_string())),
        field("b", "bool", Value::Bool(false)),
        field("dt", "datetime.datetime", Value::DateTime(dt)),
        field("d", "datetime.date", Value::Date(dt.date)),
        field("t", "datetime.time", Value::Time(dt.time)),
    ];
    let r = validate_datamodel(&fields);
    assert_eq!(r.len(), 7);
    assert!(r.iter().all(|o| o.valid && o.error.is_none()));
}

#[test]
fn mismatched_kinds_and_empty_temporal_text() {
    let o = validate_field(&field("d", "datetime.date", text("")));
    assert!(!o.valid);
    assert!(matches!(o.error, Some(ErrorKind::EmptyInput)));
    let o = validate_field(&field("n", "int", Value::Null));
    assert!(!o.valid);
    let o = validate_field(&field("x", "str", Value::Decimal(Decimal { mantissa: 1, scale: 0 })));
    assert!(!o.valid);
    let o = validate_field(&field("b", "bool", text("maybe")));
    assert!(matches!(o.error, Some(ErrorKind::InvalidBoolean { .. })));
}

#[test]
fn empty_record_gives_no_outcomes() {
    assert!(validate_datamodel(&Vec::new()).is_empty());
}
