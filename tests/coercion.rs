use dragonfly_plugin::coerce::{coerce_token, ArgValue};
use dragonfly_plugin::param::{get_param_type, ident_kind, FieldType, IntKind, ParamType, ValueKind};
use dragonfly_plugin::text::same_text;

fn int_token(kind: IntKind, token: &str) -> Option<ArgValue> {
    coerce_token(ValueKind::Int(kind), token)
}

#[test]
fn integers_read_within_their_type_range() {
    assert_eq!(int_token(IntKind::I32, "3"), Some(ArgValue::Int(3)));
    assert_eq!(int_token(IntKind::I32, "+3"), Some(ArgValue::Int(3)));
    assert_eq!(int_token(IntKind::I32, "-3"), Some(ArgValue::Int(-3)));
    assert_eq!(int_token(IntKind::I8, "-128"), Some(ArgValue::Int(-128)));
    assert_eq!(int_token(IntKind::I8, "127"), Some(ArgValue::Int(127)));
    assert_eq!(int_token(IntKind::I8, "128"), None);
    assert_eq!(int_token(IntKind::I8, "-129"), None);
    assert_eq!(int_token(IntKind::U8, "255"), Some(ArgValue::UInt(255)));
    assert_eq!(int_token(IntKind::U8, "256"), None);
    assert_eq!(int_token(IntKind::U8, "-0"), None);
    assert_eq!(int_token(IntKind::U8, "007"), Some(ArgValue::UInt(7)));
    assert_eq!(int_token(IntKind::I128, "-170141183460469231731687303715884105728"), Some(ArgValue::Int(i128::MIN)));
    assert_eq!(int_token(IntKind::U128, "340282366920938463463374607431768211455"), Some(ArgValue::UInt(u128::MAX)));
    assert_eq!(int_token(IntKind::U128, "340282366920938463463374607431768211456"), None);
    assert_eq!(int_token(IntKind::I64, "99999999999999999999999999"), None);
}

#[test]
fn signedness_decides_the_value_variant() {
    assert_eq!(int_token(IntKind::I64, "5"), Some(ArgValue::Int(5)));
    assert_eq!(int_token(IntKind::U64, "5"), Some(ArgValue::UInt(5)));
    assert_eq!(int_token(IntKind::Isize, "0"), Some(ArgValue::Int(0)));
    assert_eq!(int_token(IntKind::Usize, "0"), Some(ArgValue::UInt(0)));
}

#[test]
fn malformed_integers_are_rejected() {
    for token in ["", "+", "-", "1.5", "x", "1 ", " 1", "--1", "1e3", "0x10"] {
        assert_eq!(int_token(IntKind::I64, token), None, "token {token:?}");
    }
}

#[test]
fn integer_reading_agrees_with_std() {
    for token in ["0", "-0", "+0", "42", "-2147483648", "2147483647", "2147483648", "-", "+-1", "١"] {
        let expected = token.parse::<i32>().ok().map(|v| ArgValue::Int(v as i128));
        assert_eq!(int_token(IntKind::I32, token), expected, "token {token:?}");
        let expected = token.parse::<u16>().ok().map(|v| ArgValue::UInt(v as u128));
        assert_eq!(int_token(IntKind::U16, token), expected, "token {token:?}");
    }
}

#[test]
fn floats_follow_the_decimal_grammar() {
    for token in ["10.5", "2", "-1", "+.5", "5.", "1e5", "1E-3", "2.5e+10", "inf", "-Infinity", "NaN", "iNf"] {
        assert_eq!(coerce_token(ValueKind::Float, token), Some(ArgValue::Float(token.to_string())), "{token}");
        assert!(token.parse::<f64>().is_ok(), "{token}");
    }
    for token in ["", ".", "e5", "1e", "1e+", "1.2.3", "abc", "+", "1,5", "infin", "- 1", "1_000"] {
        assert_eq!(coerce_token(ValueKind::Float, token), None, "{token}");
        assert!(token.parse::<f64>().is_err(), "{token}");
    }
}

#[test]
fn booleans_accept_only_exact_literals() {
    assert_eq!(coerce_token(ValueKind::Bool, "true"), Some(ArgValue::Bool(true)));
    assert_eq!(coerce_token(ValueKind::Bool, "false"), Some(ArgValue::Bool(false)));
    for token in ["True", "1", "yes", "", "false "] {
        assert_eq!(coerce_token(ValueKind::Bool, token), None);
    }
}

#[test]
fn text_is_taken_verbatim() {
    assert_eq!(coerce_token(ValueKind::Text, ""), Some(ArgValue::Text(String::new())));
    assert_eq!(coerce_token(ValueKind::Text, " a b "), Some(ArgValue::Text(" a b ".to_string())));
}

fn path(ident: &str) -> FieldType {
    FieldType::Path { ident: ident.to_string(), arg: None }
}

#[test]
fn field_types_resolve_to_param_types() {
    assert_eq!(get_param_type(&path("f32")), (ValueKind::Float, false));
    assert_eq!(get_param_type(&path("u64")), (ValueKind::Int(IntKind::U64), false));
    assert_eq!(get_param_type(&path("isize")), (ValueKind::Int(IntKind::Isize), false));
    assert_eq!(get_param_type(&path("bool")), (ValueKind::Bool, false));
    assert_eq!(get_param_type(&path("String")), (ValueKind::Text, false));
    assert_eq!(get_param_type(&path("Uuid")), (ValueKind::Text, false));
    assert_eq!(get_param_type(&FieldType::Other), (ValueKind::Text, false));
    let opt = FieldType::Path { ident: "Option".to_string(), arg: Some(Box::new(path("i16"))) };
    assert_eq!(get_param_type(&opt), (ValueKind::Int(IntKind::I16), true));
    let reference = FieldType::Reference(Box::new(opt));
    assert_eq!(get_param_type(&reference), (ValueKind::Int(IntKind::I16), true));
    let nested = FieldType::Path {
        ident: "Option".to_string(),
        arg: Some(Box::new(FieldType::Reference(Box::new(path("f64"))))),
    };
    assert_eq!(get_param_type(&nested), (ValueKind::Float, true));
    // `Option` without a type argument is just an unknown name
    assert_eq!(get_param_type(&path("Option")), (ValueKind::Text, false));
    assert_eq!(ident_kind("i128"), ValueKind::Int(IntKind::I128));
    assert_eq!(ValueKind::Float.param_type(), ParamType::ParamFloat);
    assert_eq!(ValueKind::Text.param_type(), ParamType::ParamString);
}

#[test]
fn same_text_compares_characters() {
    assert!(same_text("ping", "ping"));
    assert!(!same_text("ping", "Ping"));
    assert!(!same_text("ping", "pin"));
    assert!(same_text("", ""));
}
