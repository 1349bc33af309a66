use user_api::document::{field_value, find_user, Document, NumField, UserEntry, UserRecord};
use user_api::json_out::{escape_str, render_pairs};
use user_api::sort::{sort_pairs, Pair};
use user_api::text::{i64_to_string, split_path, str_eq, u64_to_string};

#[test]
fn split_path_segments() {
    let segs = split_path("/user_info/alice");
    assert_eq!(segs, vec!["".to_string(), "user_info".to_string(), "alice".to_string()]);
    assert_eq!(split_path(""), vec!["".to_string()]);
    assert_eq!(split_path("/"), vec!["".to_string(), "".to_string()]);
    assert_eq!(split_path("a//b/"), vec![
        "a".to_string(),
        "".to_string(),
        "b".to_string(),
        "".to_string(),
    ]);
}

#[test]
fn decimal_rendering() {
    assert_eq!(u64_to_string(0), "0");
    assert_eq!(u64_to_string(7), "7");
    assert_eq!(u64_to_string(1234567890), "1234567890");
    assert_eq!(u64_to_string(u64::MAX), "18446744073709551615");
    assert_eq!(i64_to_string(-45), "-45");
    assert_eq!(i64_to_string(i64::MIN), "-9223372036854775808");
    assert_eq!(i64_to_string(i64::MAX), "9223372036854775807");
}

#[test]
fn string_equality() {
    assert!(str_eq("abc", "abc"));
    assert!(!str_eq("abc", "abd"));
    assert!(!str_eq("abc", "ab"));
    assert!(str_eq("", ""));
}

#[test]
fn escaping_quotes_and_backslashes() {
    assert_eq!(escape_str("plain"), "plain");
    assert_eq!(escape_str("a\"b"), "a\\\"b");
    assert_eq!(escape_str("a\\b"), "a\\\\b");
    assert_eq!(escape_str("a\nb"), "a\\u000ab");
}

#[test]
fn rendered_pairs_match_reference_serializer() {
    let pairs = vec![
        Pair { name: "bob \"the\" builder".to_string(), value: 9 },
        Pair { name: "al\\ice".to_string(), value: -5 },
        Pair { name: "héloïse".to_string(), value: 0 },
    ];
    let body = render_pairs(&pairs);
    let reference: Vec<(String, i64)> =
        pairs.iter().map(|p| (p.name.clone(), p.value)).collect();
    assert_eq!(body, serde_json::to_string(&reference).unwrap());
}

#[test]
fn sort_pairs_is_stable_descending() {
    let pairs = vec![
        Pair { name: "a".to_string(), value: 1 },
        Pair { name: "b".to_string(), value: 3 },
        Pair { name: "c".to_string(), value: 1 },
        Pair { name: "d".to_string(), value: 3 },
    ];
    let sorted = sort_pairs(pairs);
    let got: Vec<(String, i64)> = sorted.into_iter().map(|p| (p.name, p.value)).collect();
    assert_eq!(got, vec![
        ("b".to_string(), 3),
        ("d".to_string(), 3),
        ("a".to_string(), 1),
        ("c".to_string(), 1),
    ]);
}

#[test]
fn field_lookup_defaults_to_zero() {
    let rec = UserRecord {
        json: "{}".to_string(),
        fields: vec![
            NumField { name: "score".to_string(), value: 4 },
            NumField { name: "other".to_string(), value: 6 },
        ],
    };
    assert_eq!(field_value(&rec, "score"), 4);
    assert_eq!(field_value(&rec, "other"), 6);
    assert_eq!(field_value(&rec, "absent"), 0);
}

#[test]
fn user_lookup_finds_exact_name() {
    let doc = Document {
        users: vec![UserEntry {
            name: "alice".to_string(),
            record: UserRecord { json: "{}".to_string(), fields: vec![] },
        }],
    };
    assert!(find_user(&doc, "alice").is_some());
    assert!(find_user(&doc, "bob").is_none());
    assert!(find_user(&doc, "Alice").is_none());
}
