use yorishiro_core::error::{ValidationDetail, YorishiroError};
use yorishiro_core::json::JsonValue;
use yorishiro_core::name_map::{str_eq, str_lt, NameMap};
use yorishiro_core::text::{hex_encode, push_i64_decimal, push_u64_decimal};

#[test]
fn json_text_is_compact_and_escaped() {
    let v = JsonValue::Object(vec![
        ("a".to_string(), JsonValue::Array(vec![JsonValue::Null, JsonValue::Bool(false)])),
        ("b\"q".to_string(), JsonValue::String("line\nbreak\t\\ \u{1}".to_string())),
        ("n".to_string(), JsonValue::Number("-1.5e3".to_string())),
    ]);
    assert_eq!(
        v.to_json_text(),
        "{\"a\":[null,false],\"b\\\"q\":\"line\\nbreak\\t\\\\ \\u0001\",\"n\":-1.5e3}"
    );
    assert_eq!(v.copy(), v);
    assert!(JsonValue::Null.is_null());
    assert!(!JsonValue::Bool(true).is_null());
    assert_eq!(v.get("n"), Some(&JsonValue::Number("-1.5e3".to_string())));
    assert_eq!(v.get("zz"), None);
    assert_eq!(JsonValue::Null.get("a"), None);
}

#[test]
fn name_maps_stay_sorted_and_replace_values() {
    let mut m: NameMap<u32> = NameMap::new();
    m.insert("b".to_string(), 1);
    m.insert("a".to_string(), 2);
    m.insert("c".to_string(), 3);
    m.insert("b".to_string(), 4);
    let names: Vec<&str> = m.as_slice().iter().map(|(k, _)| k.as_str()).collect();
    assert_eq!(names, vec!["a", "b", "c"]);
    assert_eq!(m.len(), 3);
    assert_eq!(m.get("b"), Some(&4));
    assert_eq!(m.get("d"), None);
    assert!(m.contains_key("a"));
    assert!(!m.contains_key("A"));
}

#[test]
fn string_comparisons_follow_code_points() {
    assert!(str_eq("abc", "abc"));
    assert!(!str_eq("abc", "abd"));
    assert!(str_lt("ab", "abc"));
    assert!(str_lt("B", "a"));
    assert!(!str_lt("b", "a"));
    assert!(!str_lt("a", "a"));
}

#[test]
fn numbers_and_bytes_render_like_rust() {
    let mut s = String::new();
    push_i64_decimal(&mut s, i64::MIN);
    s.push(' ');
    push_i64_decimal(&mut s, 0);
    s.push(' ');
    push_u64_decimal(&mut s, u64::MAX);
    assert_eq!(s, format!("{} 0 {}", i64::MIN, u64::MAX));
    assert_eq!(hex_encode(&[0x00, 0x0f, 0xa0, 0xff]), "000fa0ff");
}

#[test]
fn errors_display_their_kind_and_message() {
    let cases = vec![
        (
            YorishiroError::ValidationFailed {
                message: "m".into(),
                details: vec![ValidationDetail { field: "/x".into(), problem: "p".into() }],
                hint: "h".into(),
            },
            "validation failed: m",
        ),
        (YorishiroError::NotFound { message: "m".into() }, "not found: m"),
        (YorishiroError::ScopeInsufficient { message: "m".into(), hint: "h".into() }, "scope insufficient: m"),
        (YorishiroError::Conflict { message: "m".into() }, "conflict: m"),
        (YorishiroError::RelationTypeMismatch { message: "m".into() }, "relation type mismatch: m"),
        (YorishiroError::Unauthenticated, "unauthenticated"),
        (YorishiroError::Internal("m".into()), "internal error: m"),
    ];
    for (err, text) in cases {
        assert_eq!(err.display_text(), text);
    }
}
