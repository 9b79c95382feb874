use datamodel::error::ErrorKind;
use datamodel::field::FieldType;
use datamodel::text::{slugify_camelcase, strtobool};

#[test]
fn truth_table_reads_tokens_in_any_case() {
    assert_eq!(strtobool("YES").unwrap(), true);
    assert_eq!(strtobool("Off").unwrap(), false);
    assert_eq!(strtobool("  true\t").unwrap(), true);
    assert_eq!(strtobool("1").unwrap(), true);
    assert_eq!(strtobool("0").unwrap(), false);
    assert_eq!(strtobool("N").unwrap(), false);
}

#[test]
fn truth_table_refuses_other_tokens() {
    match strtobool("maybe") {
        Err(ErrorKind::InvalidBoolean { token }) => assert_eq!(token, "maybe"),
        other => panic!("unexpected {:?}", other),
    }
    assert!(strtobool("none").is_err());
    assert!(strtobool("null").is_err());
    assert!(strtobool("").is_err());
    assert!(strtobool("ye s").is_err());
}

#[test]
fn registry_resolves_record_tokens() {
    assert_eq!(FieldType::from_str("str"), Some(FieldType::Str));
    assert_eq!(FieldType::from_str("int"), Some(FieldType::Int));
    assert_eq!(FieldType::from_str("float"), Some(FieldType::Float));
    assert_eq!(FieldType::from_str("bool"), Some(FieldType::Bool));
    assert_eq!(FieldType::from_str("datetime.datetime"), Some(FieldType::DateTime));
    assert_eq!(FieldType::from_str("datetime.date"), Some(FieldType::Date));
    assert_eq!(FieldType::from_str("datetime.time"), Some(FieldType::Time));
    assert_eq!(FieldType::from_str("complex"), None);
    assert_eq!(FieldType::from_str("Str"), None);
    assert_eq!(FieldType::from_str("date"), None);
}

#[test]
fn slugify_splits_camel_case() {
    assert_eq!(slugify_camelcase("HelloWorld".to_string()), "Hello World");
    assert_eq!(slugify_camelcase("Hello World".to_string()), "Hello World");
    assert_eq!(slugify_camelcase("myHTTPServer".to_string()), "my H T T P Server");
    assert_eq!(slugify_camelcase("".to_string()), "");
    assert_eq!(slugify_camelcase("X".to_string()), "X");
}
