use rust_learn::source::config::error::{ConfigError, Unexpected};
use rust_learn::source::config::value::{
    bool_of_lowercase, i128_of_lowercase, i64_of_lowercase, kind_of_unsigned, kind_of_unsigned128, table_insert,
    u128_of_lowercase, u64_of_lowercase, Value, ValueKind,
};

fn from(kind: ValueKind) -> Value {
    Value::new(Some(&"config.toml".to_string()), kind)
}

fn text(s: &str) -> Value {
    from(ValueKind::String(s.to_string()))
}

#[test]
fn origin_is_kept() {
    let v = from(ValueKind::Nil);
    assert_eq!(v.origin(), Some("config.toml"));
    let w = Value::new(None, ValueKind::Nil);
    assert_eq!(w.origin(), None);
}

#[test]
fn into_bool_cases() {
    assert_eq!(from(ValueKind::Boolean(true)).into_bool().unwrap(), true);
    assert_eq!(from(ValueKind::I64(0)).into_bool().unwrap(), false);
    assert_eq!(from(ValueKind::U128(7)).into_bool().unwrap(), true);
    assert_eq!(from(ValueKind::Float(0)).into_bool().unwrap(), false);
    assert_eq!(from(ValueKind::Float(0x8000_0000_0000_0000)).into_bool().unwrap(), false);
    assert_eq!(from(ValueKind::Float(1.5f64.to_bits())).into_bool().unwrap(), true);
    for t in ["1", "TRUE", "On", "yes"] {
        assert_eq!(text(t).into_bool().unwrap(), true);
    }
    for t in ["0", "False", "OFF", "No"] {
        assert_eq!(text(t).into_bool().unwrap(), false);
    }
    match text("Maybe").into_bool() {
        Err(ConfigError::Type { origin, unexpected: Unexpected::Str(s), expected }) => {
            assert_eq!(origin.as_deref(), Some("config.toml"));
            assert_eq!(s, "maybe");
            assert_eq!(expected, "a boolean");
        },
        other => panic!("unexpected {:?}", other),
    }
    assert!(matches!(
        from(ValueKind::Nil).into_bool(),
        Err(ConfigError::Type { unexpected: Unexpected::Unit, expected: "a boolean", .. })
    ));
    assert!(matches!(
        from(ValueKind::Array(vec![])).into_bool(),
        Err(ConfigError::Type { unexpected: Unexpected::Sequence, .. })
    ));
    assert!(matches!(
        from(ValueKind::Table(vec![])).into_bool(),
        Err(ConfigError::Type { unexpected: Unexpected::Mapping, .. })
    ));
}

#[test]
fn into_int_cases() {
    assert_eq!(from(ValueKind::I64(-5)).into_int().unwrap(), -5);
    assert_eq!(from(ValueKind::I128(1 << 40)).into_int().unwrap(), 1 << 40);
    assert!(matches!(
        from(ValueKind::I128(1 << 70)).into_int(),
        Err(ConfigError::Type { unexpected: Unexpected::I128(_), expected: "an signed 64 bit or less integer", .. })
    ));
    assert!(matches!(
        from(ValueKind::U64(u64::MAX)).into_int(),
        Err(ConfigError::Type { unexpected: Unexpected::U64(u64::MAX), .. })
    ));
    assert_eq!(from(ValueKind::U128(12)).into_int().unwrap(), 12);
    assert_eq!(from(ValueKind::Boolean(true)).into_int().unwrap(), 1);
    assert_eq!(text("Yes").into_int().unwrap(), 1);
    assert_eq!(text("off").into_int().unwrap(), 0);
    assert_eq!(text("-42").into_int().unwrap(), -42);
    assert_eq!(text("+7").into_int().unwrap(), 7);
    assert_eq!(text("-9223372036854775808").into_int().unwrap(), i64::MIN);
    assert!(text("9223372036854775808").into_int().is_err());
    assert!(text("4 2").into_int().is_err());
    assert!(text("").into_int().is_err());
    assert!(matches!(
        from(ValueKind::Nil).into_int(),
        Err(ConfigError::Type { unexpected: Unexpected::Unit, expected: "an integer", .. })
    ));
}

#[test]
fn into_int128_cases() {
    assert_eq!(from(ValueKind::I64(-5)).into_int128().unwrap(), -5);
    assert_eq!(from(ValueKind::U64(u64::MAX)).into_int128().unwrap(), u64::MAX as i128);
    assert!(from(ValueKind::U128(u128::MAX)).into_int128().is_err());
    assert_eq!(text("TRUE").into_int128().unwrap(), 1);
    // texts other than the words are refused, numbers included
    assert!(matches!(
        text("12").into_int128(),
        Err(ConfigError::Type { unexpected: Unexpected::Str(_), expected: "an signed 128 bit integer", .. })
    ));
}

#[test]
fn into_uint_cases() {
    assert!(matches!(
        from(ValueKind::I64(-1)).into_uint(),
        Err(ConfigError::Type { unexpected: Unexpected::I64(-1), expected: "an unsigned 64 bit integer", .. })
    ));
    assert_eq!(from(ValueKind::I128(300)).into_uint().unwrap(), 300);
    assert_eq!(text("18446744073709551615").into_uint().unwrap(), u64::MAX);
    assert!(text("18446744073709551616").into_uint().is_err());
    assert!(text("-0").into_uint().is_err());
    assert_eq!(text("no").into_uint().unwrap(), 0);
}

#[test]
fn into_uint128_cases() {
    assert_eq!(from(ValueKind::U64(5)).into_uint128().unwrap(), 5);
    assert!(from(ValueKind::I128(-3)).into_uint128().is_err());
    assert_eq!(text("340282366920938463463374607431768211455").into_uint128().unwrap(), u128::MAX);
    assert!(text("340282366920938463463374607431768211456").into_uint128().is_err());
    assert!(matches!(
        from(ValueKind::Array(vec![])).into_uint128(),
        Err(ConfigError::Type { unexpected: Unexpected::Sequence, expected: "an integer", .. })
    ));
}

#[test]
fn into_string_cases() {
    assert_eq!(text("Hi").into_string().unwrap(), "Hi");
    assert_eq!(from(ValueKind::Boolean(false)).into_string().unwrap(), "false");
    assert_eq!(from(ValueKind::I64(-120)).into_string().unwrap(), "-120");
    assert_eq!(from(ValueKind::I128(i128::MIN)).into_string().unwrap(), i128::MIN.to_string());
    assert_eq!(from(ValueKind::U128(u128::MAX)).into_string().unwrap(), u128::MAX.to_string());
    assert!(matches!(
        from(ValueKind::Nil).into_string(),
        Err(ConfigError::Type { unexpected: Unexpected::Unit, expected: "s string", .. })
    ));
}

#[test]
fn into_array_and_table_cases() {
    let a = from(ValueKind::Array(vec![Value::from(ValueKind::I64(1))])).into_array().unwrap();
    assert_eq!(a.len(), 1);
    assert!(matches!(
        from(ValueKind::Table(vec![])).into_array(),
        Err(ConfigError::Type { unexpected: Unexpected::Sequence, expected: "a array", .. })
    ));
    assert!(matches!(
        from(ValueKind::Float(7)).into_array(),
        Err(ConfigError::Type { unexpected: Unexpected::Float(7), .. })
    ));
    let t = from(ValueKind::Table(vec![("k".to_string(), Value::from(ValueKind::Nil))])).into_table().unwrap();
    assert_eq!(t[0].0, "k");
    assert!(matches!(
        text("x").into_table(),
        Err(ConfigError::Type { unexpected: Unexpected::Str(_), expected: "a table", .. })
    ));
    assert!(matches!(
        from(ValueKind::Array(vec![])).into_table(),
        Err(ConfigError::Type { unexpected: Unexpected::Sequence, expected: "a table", .. })
    ));
}

#[test]
fn display_texts() {
    let v = ValueKind::Table(vec![
        ("a".to_string(), Value::from(ValueKind::Array(vec![Value::from(ValueKind::I64(1)), Value::from(ValueKind::Boolean(true))]))),
        ("b".to_string(), Value::from(ValueKind::Nil)),
    ]);
    assert_eq!(v.to_text(), "{ a => [1true]b => nil }");
    assert_eq!(ValueKind::U64(3).to_text(), "3");
    assert_eq!(Value::from(ValueKind::String("s".to_string())).to_text(), "s");
}

#[test]
fn conversions_from_plain_values() {
    assert!(matches!(ValueKind::from(5i8), ValueKind::I64(5)));
    assert!(matches!(ValueKind::from(7u16), ValueKind::U64(7)));
    assert!(matches!(ValueKind::from(true), ValueKind::Boolean(true)));
    assert!(matches!(ValueKind::from(1u128 << 100), ValueKind::U128(_)));
    assert!(matches!(ValueKind::default(), ValueKind::Nil));
    assert!(Value::default().origin().is_none());
}

#[test]
fn lowercase_text_readings() {
    let here = || Some("here".to_string());
    assert_eq!(bool_of_lowercase("1".to_string(), here()).unwrap(), true);
    assert_eq!(bool_of_lowercase("off".to_string(), here()).unwrap(), false);
    assert!(matches!(
        bool_of_lowercase("TRUE".to_string(), here()),
        Err(ConfigError::Type { unexpected: Unexpected::Str(_), expected: "a boolean", .. })
    ));
    assert_eq!(i64_of_lowercase("-42".to_string(), None).unwrap(), -42);
    assert_eq!(i64_of_lowercase("yes".to_string(), None).unwrap(), 1);
    assert!(i64_of_lowercase("9223372036854775808".to_string(), None).is_err());
    assert_eq!(i128_of_lowercase("no".to_string(), None).unwrap(), 0);
    match i128_of_lowercase("12".to_string(), here()) {
        Err(ConfigError::Type { origin, unexpected: Unexpected::Str(s), expected }) => {
            assert_eq!(origin.as_deref(), Some("here"));
            assert_eq!(s, "12");
            assert_eq!(expected, "an signed 128 bit integer");
        },
        other => panic!("unexpected {:?}", other),
    }
    assert_eq!(u64_of_lowercase("18446744073709551615".to_string(), None).unwrap(), u64::MAX);
    assert!(u64_of_lowercase("-1".to_string(), None).is_err());
    assert_eq!(u128_of_lowercase("on".to_string(), None).unwrap(), 1);
    assert_eq!(u128_of_lowercase("340282366920938463463374607431768211455".to_string(), None).unwrap(), u128::MAX);
}

#[test]
fn table_insert_replaces_or_appends() {
    let mut t: Vec<(String, i32)> = Vec::new();
    assert_eq!(table_insert(&mut t, "a".to_string(), 1), None);
    assert_eq!(table_insert(&mut t, "b".to_string(), 2), None);
    assert_eq!(table_insert(&mut t, "a".to_string(), 3), Some(1));
    assert_eq!(t, vec![("a".to_string(), 3), ("b".to_string(), 2)]);
}

#[test]
fn deserialized_unsigned_kinds() {
    assert!(matches!(kind_of_unsigned(7), Some(ValueKind::I64(7))));
    assert!(matches!(kind_of_unsigned(i64::MAX as u64), Some(ValueKind::I64(i64::MAX))));
    assert!(kind_of_unsigned(i64::MAX as u64 + 1).is_none());
    assert!(matches!(kind_of_unsigned128(5), Some(ValueKind::I128(5))));
    assert!(kind_of_unsigned128(u128::MAX).is_none());
}

#[test]
fn kinds_from_plain_values() {
    assert!(matches!(ValueKind::from("abc"), ValueKind::String(ref s) if s == "abc"));
    assert!(matches!(ValueKind::from(Some(7i32)), ValueKind::I64(7)));
    assert!(matches!(ValueKind::from(None::<i32>), ValueKind::Nil));
    assert!(matches!(ValueKind::from(Some("x")), ValueKind::String(ref s) if s == "x"));
    let v = Value::from(3u8);
    assert!(v.origin().is_none());
    assert!(matches!(v.kind, ValueKind::U64(3)));
    let w = Value::from(ValueKind::Boolean(true));
    assert!(matches!(w.kind, ValueKind::Boolean(true)));
}
