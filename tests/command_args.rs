use dragonfly_plugin::coerce::ArgValue;
use dragonfly_plugin::command::{parse_optional_arg, parse_required_arg, CommandParseError};
use dragonfly_plugin::param::{IntKind, ValueKind};

fn i32_kind() -> ValueKind {
    ValueKind::Int(IntKind::I32)
}

#[test]
fn parse_required_arg_ok() {
    let args = vec!["42".to_string()];
    let value = parse_required_arg(&args, 0, "amount", i32_kind()).unwrap();
    assert_eq!(value, ArgValue::Int(42));
}

#[test]
fn parse_required_arg_missing() {
    let args: Vec<String> = Vec::new();
    let err = parse_required_arg(&args, 0, "amount", i32_kind()).unwrap_err();
    match err {
        CommandParseError::Missing(name) => assert_eq!(name, "amount"),
        e => panic!("expected Missing, got {e:?}"),
    }
}

#[test]
fn parse_required_arg_invalid() {
    let args = vec!["not-a-number".to_string()];
    let err = parse_required_arg(&args, 0, "amount", i32_kind()).unwrap_err();
    match err {
        CommandParseError::Invalid(name) => assert_eq!(name, "amount"),
        e => panic!("expected Invalid, got {e:?}"),
    }
}

#[test]
fn parse_optional_arg_none_when_missing_or_empty() {
    // Missing index
    let args: Vec<String> = Vec::new();
    let value = parse_optional_arg(&args, 0, "amount", i32_kind()).unwrap();
    assert!(value.is_none());

    // Present but empty string
    let args = vec!["".to_string()];
    let value = parse_optional_arg(&args, 0, "amount", i32_kind()).unwrap();
    assert!(value.is_none());
}

#[test]
fn parse_optional_arg_some_when_valid() {
    let args = vec!["7".to_string()];
    let value = parse_optional_arg(&args, 0, "amount", i32_kind()).unwrap();
    assert_eq!(value, Some(ArgValue::Int(7)));
}

#[test]
fn parse_optional_arg_error_when_invalid() {
    let args = vec!["nope".to_string()];
    let err = parse_optional_arg(&args, 0, "amount", i32_kind()).unwrap_err();
    match err {
        CommandParseError::Invalid(name) => assert_eq!(name, "amount"),
        e => panic!("expected Invalid, got {e:?}"),
    }
}

#[test]
fn display_messages_are_human_friendly() {
    let err = CommandParseError::Missing("amount".to_string());
    assert!(err.message().contains("missing required argument"));
    assert!(err.message().contains("amount"));

    let err = CommandParseError::Invalid("amount".to_string());
    assert!(err.message().contains("invalid value for argument"));

    let err = CommandParseError::UnknownSubcommand;
    assert!(err.message().contains("unknown subcommand"));
}

#[test]
fn messages_are_rendered_exactly() {
    assert_eq!(
        CommandParseError::Missing("times".to_string()).message(),
        "missing required argument `times`"
    );
    assert_eq!(
        CommandParseError::Invalid("times".to_string()).message(),
        "invalid value for argument `times`"
    );
    assert_eq!(CommandParseError::NoMatch.message(), "command did not match");
    assert_eq!(CommandParseError::UnknownSubcommand.message(), "unknown subcommand");
}

#[test]
fn required_empty_string_is_a_value() {
    let args = vec!["".to_string()];
    let value = parse_required_arg(&args, 0, "text", ValueKind::Text).unwrap();
    assert_eq!(value, ArgValue::Text(String::new()));
    // an empty token for a required integer is invalid, not missing
    let err = parse_required_arg(&args, 0, "n", i32_kind()).unwrap_err();
    assert_eq!(err, CommandParseError::Invalid("n".to_string()));
}

#[test]
fn optional_empty_or_absent_never_invalid() {
    let args = vec!["".to_string()];
    for kind in [i32_kind(), ValueKind::Float, ValueKind::Bool, ValueKind::Text] {
        assert_eq!(parse_optional_arg(&args, 0, "x", kind), Ok(None));
        assert_eq!(parse_optional_arg(&args, 3, "x", kind), Ok(None));
    }
}
