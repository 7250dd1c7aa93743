use multi_codec::{CodecCode, CodecName};
use std::cmp::Ordering;
use std::collections::HashMap;

#[test]
fn test_codec_code_new() {
    let code = CodecCode::new(0xED);
    assert_eq!(code.get(), 0xED);
}

#[test]
fn test_codec_code_conversions() {
    let code = CodecCode::from(0x12u64);
    assert_eq!(u64::from(code), 0x12);
}

#[test]
fn test_codec_code_display() {
    let code = CodecCode::new(0xED);
    assert_eq!(code.to_string(), "0xed");
    assert_eq!(code.to_lower_hex(), "ed");
    assert_eq!(code.to_upper_hex(), "ED");
}

#[test]
fn test_codec_code_as_hex() {
    let code = CodecCode::new(0xABCD);
    assert_eq!(code.as_hex(), "0xabcd");
}

#[test]
fn test_codec_code_is_identity() {
    let identity = CodecCode::new(0x00);
    assert!(identity.is_identity());

    let other = CodecCode::new(0x12);
    assert!(!other.is_identity());
}

#[test]
fn test_codec_code_equality() {
    let code1 = CodecCode::new(0xED);
    let code2 = CodecCode::new(0xED);
    let code3 = CodecCode::new(0x12);

    assert_eq!(code1, code2);
    assert_ne!(code1, code3);
}

#[test]
fn test_codec_code_ordering() {
    let code1 = CodecCode::new(0x10);
    let code2 = CodecCode::new(0x20);

    assert!(code1 < code2);
    assert!(code2 > code1);
}

#[test]
fn test_codec_code_hash() {
    let mut map = HashMap::new();
    let code = CodecCode::new(0xED);
    map.insert(code, "ed25519-pub");

    assert_eq!(map.get(&code), Some(&"ed25519-pub"));
}

#[test]
fn test_codec_name_new() {
    let name = CodecName::new("ed25519-pub");
    assert_eq!(name.as_str(), "ed25519-pub");
}

#[test]
fn test_codec_name_conversions() {
    let name = CodecName::from("sha2-256".to_string());
    assert_eq!(String::from(name), "sha2-256");

    let name = CodecName::from("blake3");
    assert_eq!(name.as_str(), "blake3");
}

#[test]
fn test_codec_name_display() {
    let name = CodecName::new("ed25519-pub");
    assert_eq!(name.to_string(), "ed25519-pub");
}

#[test]
fn test_codec_name_as_ref() {
    let name = CodecName::new("sha2-256");
    let s: &str = name.as_ref();
    assert_eq!(s, "sha2-256");
}

#[test]
fn test_codec_name_is_identity() {
    let identity = CodecName::new("identity");
    assert!(identity.is_identity());

    let other = CodecName::new("sha2-256");
    assert!(!other.is_identity());
}

#[test]
fn test_codec_name_len() {
    let name = CodecName::new("ed25519-pub");
    assert_eq!(name.len(), 11);

    let empty = CodecName::new("");
    assert_eq!(empty.len(), 0);
}

#[test]
fn test_codec_name_is_empty() {
    let empty = CodecName::new("");
    assert!(empty.is_empty());

    let name = CodecName::new("sha2-256");
    assert!(!name.is_empty());
}

#[test]
fn test_codec_name_equality() {
    let name1 = CodecName::new("ed25519-pub");
    let name2 = CodecName::new("ed25519-pub");
    let name3 = CodecName::new("sha2-256");

    assert_eq!(name1, name2);
    assert_ne!(name1, name3);
}

#[test]
fn test_codec_name_ordering() {
    let name1 = CodecName::new("aaa");
    let name2 = CodecName::new("bbb");

    assert!(name1 < name2);
    assert!(name2 > name1);
}

#[test]
fn test_codec_name_hash() {
    let mut map = HashMap::new();
    let name = CodecName::new("ed25519-pub");
    map.insert(name.clone(), 0xED);

    assert_eq!(map.get(&name), Some(&0xED));
}

#[test]
fn test_newtypes_are_copy_or_clone() {
    fn assert_copy<T: Copy>() {}
    assert_copy::<CodecCode>();

    fn assert_clone<T: Clone>() {}
    assert_clone::<CodecName>();
}

#[test]
fn test_newtypes_are_send_sync() {
    fn assert_send<T: Send>() {}
    fn assert_sync<T: Sync>() {}

    assert_send::<CodecCode>();
    assert_sync::<CodecCode>();
    assert_send::<CodecName>();
    assert_sync::<CodecName>();
}

#[test]
fn code_hex_of_zero_and_max() {
    assert_eq!(CodecCode::new(0).as_hex(), "0x0");
    assert_eq!(CodecCode::new(0).to_lower_hex(), "0");
    assert_eq!(CodecCode::new(u64::MAX).as_hex(), "0xffffffffffffffff");
    assert_eq!(CodecCode::new(u64::MAX).to_upper_hex(), "FFFFFFFFFFFFFFFF");
    assert_eq!(CodecCode::new(0x1000).to_string(), "0x1000");
    assert_eq!(CodecCode::new(0xA0B).to_upper_hex(), "A0B");
}

#[test]
fn code_hex_reads_back() {
    for value in [0u64, 1, 9, 10, 15, 16, 0xED, 0xDEADBEEF, 0x0123_4567_89AB_CDEF, u64::MAX] {
        let code = CodecCode::new(value);
        let hex = code.as_hex();
        assert_eq!(u64::from_str_radix(&hex[2..], 16).unwrap(), value);
        assert_eq!(format!("{value:x}"), code.to_lower_hex());
        assert_eq!(format!("{value:X}"), code.to_upper_hex());
    }
}

#[test]
fn code_ordering_follows_value() {
    let small = CodecCode::new(5);
    let large = CodecCode::new(u64::MAX);
    assert_eq!(small.partial_cmp(&large), Some(Ordering::Less));
    assert_eq!(large.partial_cmp(&small), Some(Ordering::Greater));
    assert_eq!(small.partial_cmp(&CodecCode::new(5)), Some(Ordering::Equal));
    assert_eq!(small.cmp(&large), Ordering::Less);
    assert!(small <= CodecCode::new(5));
}

#[test]
fn code_conversion_round_trip() {
    for value in [0u64, 0x12, 0xED, u64::MAX] {
        let code: CodecCode = value.into();
        let back: u64 = code.into();
        assert_eq!(back, value);
        assert_eq!(CodecCode::from(value), CodecCode::new(value));
    }
}

#[test]
fn name_identity_is_exact() {
    assert!(!CodecName::new("Identity").is_identity());
    assert!(!CodecName::new("identity ").is_identity());
    assert!(!CodecName::new("").is_identity());
    assert!(CodecName::from("identity".to_string()).is_identity());
}

#[test]
fn name_len_counts_bytes() {
    let name = CodecName::new("\u{e9}");
    assert_eq!(name.len(), 2);
    assert!(!name.is_empty());
    assert_eq!(name.as_str(), "\u{e9}");
}

#[test]
fn name_order_follows_bytes() {
    let a = CodecName::new("sha2-256");
    let b = CodecName::new("sha2-512");
    assert_eq!(a.partial_cmp(&b), Some(Ordering::Less));
    assert_eq!(b.partial_cmp(&a), Some(Ordering::Greater));
    assert_eq!(a.partial_cmp(&CodecName::new("sha2-256")), Some(Ordering::Equal));
    assert_eq!(CodecName::new("sha2").partial_cmp(&a), Some(Ordering::Less));
    assert_eq!(CodecName::new("").partial_cmp(&CodecName::new("")), Some(Ordering::Equal));
    assert_eq!(CodecName::new("Z").partial_cmp(&CodecName::new("a")), Some(Ordering::Less));
    assert_eq!(
        CodecName::new("\u{e9}").partial_cmp(&CodecName::new("z")),
        Some(Ordering::Greater)
    );
    for (x, y) in [("aaa", "bbb"), ("b", "ab"), ("", "a"), ("x", "x")] {
        let (nx, ny) = (CodecName::new(x), CodecName::new(y));
        assert_eq!(nx.partial_cmp(&ny), x.partial_cmp(y));
        assert_eq!(nx.cmp(&ny), x.cmp(y));
        assert_eq!(nx == ny, x == y);
    }
}

#[test]
fn name_from_str_keeps_text() {
    assert_eq!(CodecName::from("blake3"), CodecName::new("blake3"));
    assert_eq!(CodecName::from("").as_str(), "");
    assert_ne!(CodecName::from("blake3"), CodecName::new("blake2"));
}
