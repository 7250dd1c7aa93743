use multi_codec::Error;

#[test]
fn test_invalid_name_error() {
    let err = Error::invalid_name("bad-codec");
    assert!(matches!(err, Error::InvalidName { .. }));
    assert_eq!(err.kind(), "InvalidName");
    assert!(err.context().contains("bad-codec"));
    assert!(err.to_string().contains("bad-codec"));
}

#[test]
fn test_invalid_value_error() {
    let err = Error::invalid_value(0xDEAD);
    assert!(matches!(err, Error::InvalidValue { .. }));
    assert_eq!(err.kind(), "InvalidValue");
    assert!(err.context().contains("dead"));
    assert!(err.to_string().contains("0xdead"));
}

#[test]
fn test_negative_value_error() {
    let err = Error::negative_value(-42);
    assert!(matches!(err, Error::NegativeValue { .. }));
    assert_eq!(err.kind(), "NegativeValue");
    assert!(err.context().contains("-42"));
    assert!(err.to_string().contains("-42"));
}

#[test]
fn test_error_messages_have_context() {
    let err = Error::invalid_name("unknown");
    let msg = err.to_string();
    assert!(msg.contains("unknown"));
    assert!(msg.contains("multicodec"));

    let err = Error::invalid_value(99999);
    let msg = err.to_string();
    assert!(msg.contains("99999"));
    assert!(msg.contains("0x"));
}

#[test]
fn test_error_kind_uniqueness() {
    let errors = [
        Error::invalid_name("test"),
        Error::invalid_value(123),
        Error::negative_value(-1),
    ];

    let kinds: Vec<_> = errors.iter().map(|e| e.kind()).collect();
    assert_eq!(kinds.len(), 3);
    assert!(kinds
        .iter()
        .all(|k| kinds.iter().filter(|x| *x == k).count() == 1));
}

#[test]
fn test_invalid_name_error_properties() {
    let err = Error::invalid_name("bad-codec");

    assert_eq!(err.kind(), "InvalidName");

    let context = err.context();
    assert!(context.contains("bad-codec"));

    let msg = err.to_string();
    assert!(msg.contains("bad-codec"));
    assert!(msg.contains("multicodec"));
}

#[test]
fn test_invalid_value_error_properties() {
    let err = Error::invalid_value(0xDEADBEEF);

    assert_eq!(err.kind(), "InvalidValue");

    let context = err.context();
    assert!(context.contains("deadbeef"));

    let msg = err.to_string();
    assert!(msg.contains("0xdeadbeef"));
    assert!(msg.contains("multicodec"));
}

#[test]
fn test_negative_value_error_properties() {
    let err = Error::negative_value(-42);

    assert_eq!(err.kind(), "NegativeValue");

    let context = err.context();
    assert!(context.contains("-42"));

    let msg = err.to_string();
    assert!(msg.contains("-42"));
    assert!(msg.contains("negative"));
}

#[test]
fn test_error_messages_provide_guidance() {
    let err = Error::invalid_name("unknown");
    let msg = err.to_string();
    assert!(msg.contains("github.com") || msg.contains("table.csv"));

    let err = Error::invalid_value(999999);
    let msg = err.to_string();
    assert!(msg.contains("github.com") || msg.contains("table.csv"));

    let err = Error::negative_value(-1);
    let msg = err.to_string();
    assert!(msg.contains("unsigned") || msg.contains("non-negative"));
}

#[test]
fn test_error_kinds_are_unique() {
    let errors = [
        Error::invalid_name("test"),
        Error::invalid_value(123),
        Error::negative_value(-1),
    ];

    let kinds: Vec<_> = errors.iter().map(multi_codec::Error::kind).collect();

    for (i, kind1) in kinds.iter().enumerate() {
        for (j, kind2) in kinds.iter().enumerate() {
            if i != j {
                assert_ne!(kind1, kind2, "Error kinds should be unique");
            }
        }
    }
}

#[test]
fn test_error_context_for_debugging() {
    let err = Error::invalid_name("test-codec");
    let context = err.context();
    assert!(context.contains("test-codec"));
    assert!(!context.is_empty());

    let err = Error::invalid_value(0x123);
    let context = err.context();
    assert!(context.contains("0x123") || context.contains("123") || context.contains("291"));
    assert!(!context.is_empty());

    let err = Error::negative_value(-100);
    let context = err.context();
    assert!(context.contains("-100"));
    assert!(!context.is_empty());
}

#[test]
fn test_error_pattern_matching() {
    let err = Error::invalid_name("test");
    match err {
        Error::InvalidName { name } => assert_eq!(name, "test"),
        _ => panic!("Wrong error variant"),
    }

    let err = Error::invalid_value(42);
    match err {
        Error::InvalidValue { code } => assert_eq!(code, 42),
        _ => panic!("Wrong error variant"),
    }

    let err = Error::negative_value(-5);
    match err {
        Error::NegativeValue { value } => assert_eq!(value, -5),
        _ => panic!("Wrong error variant"),
    }
}

#[test]
fn test_error_send_sync() {
    fn assert_send<T: Send>() {}
    fn assert_sync<T: Sync>() {}

    assert_send::<Error>();
    assert_sync::<Error>();
}

#[test]
fn test_error_display_informative() {
    let err = Error::invalid_name("bad-name");
    let display = err.to_string();
    assert!(!display.is_empty());
    assert!(display.len() > 20);

    let err = Error::invalid_value(999);
    let display = err.to_string();
    assert!(!display.is_empty());
    assert!(display.len() > 20);

    let err = Error::negative_value(-10);
    let display = err.to_string();
    assert!(!display.is_empty());
    assert!(display.len() > 20);
}

#[test]
fn test_error_debug_output() {
    let err = Error::invalid_name("test");
    let debug = format!("{err:?}");
    assert!(!debug.is_empty());
    assert!(debug.contains("InvalidName") || debug.contains("test"));
}

#[test]
fn error_contexts_are_exact() {
    assert_eq!(Error::invalid_name("bad").context(), "Invalid name: 'bad'");
    assert_eq!(Error::invalid_value(0xDEAD).context(), "Invalid code: 0xdead (57005)");
    assert_eq!(Error::invalid_value(0).context(), "Invalid code: 0x0 (0)");
    assert_eq!(Error::negative_value(-42).context(), "Negative value: -42");
    assert_eq!(
        Error::negative_value(i64::MIN).context(),
        "Negative value: -9223372036854775808"
    );
    assert_eq!(Error::negative_value(i64::MAX).context(), "Negative value: 9223372036854775807");
}

#[test]
fn error_messages_are_exact() {
    assert_eq!(
        Error::invalid_name("nope").to_string(),
        "Invalid multicodec name: 'nope'\nThe name 'nope' is not a recognized multicodec identifier.\nSee https://github.com/multiformats/multicodec/blob/master/table.csv for valid names."
    );
    assert_eq!(
        Error::invalid_value(0xDEADBEEF).to_string(),
        "Invalid multicodec code: 0xdeadbeef (3735928559)\nThe code 0xdeadbeef is not a recognized multicodec value.\nSee https://github.com/multiformats/multicodec/blob/master/table.csv for valid codes."
    );
    assert_eq!(
        Error::negative_value(-1).to_string(),
        "Cannot convert negative value -1 to multicodec\nCodec codes must be non-negative integers. The value -1 is negative.\nUse a non-negative value or an unsigned integer type (u8, u16, u32, u64)."
    );
    assert_eq!(
        Error::invalid_value(u64::MAX).to_string(),
        "Invalid multicodec code: 0xffffffffffffffff (18446744073709551615)\nThe code 0xffffffffffffffff is not a recognized multicodec value.\nSee https://github.com/multiformats/multicodec/blob/master/table.csv for valid codes."
    );
}

#[test]
fn multitrait_error_is_carried() {
    let inner = multi_trait::Error::InsufficientData {
        expected: 10,
        actual: 5,
    };
    let inner_text = inner.to_string();
    let err = Error::from(inner);
    assert!(matches!(err, Error::Multitrait(_)));
    assert_eq!(err.kind(), "Multitrait");
    assert_eq!(err.context(), format!("Multitrait error: {inner_text}"));
    assert_eq!(err.to_string(), inner_text);
    assert_eq!(
        inner_text,
        "insufficient data: expected at least 10 bytes, found 5"
    );
}
