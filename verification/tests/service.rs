use user_api::document::{Document, NumField, UserEntry, UserRecord};
use user_api::respond;

fn record(json: &str, fields: Vec<(&str, i64)>) -> UserRecord {
    UserRecord {
        json: json.to_string(),
        fields: fields
            .into_iter()
            .map(|(n, v)| NumField { name: n.to_string(), value: v })
            .collect(),
    }
}

fn two_user_doc() -> Document {
    Document {
        users: vec![
            UserEntry { name: "alice".to_string(), record: record("{\"score\":5}", vec![("score", 5)]) },
            UserEntry { name: "bob".to_string(), record: record("{\"score\":9}", vec![("score", 9)]) },
        ],
    }
}

fn empty_doc() -> Document {
    Document { users: vec![] }
}

#[test]
fn version_fixed() {
    let r = respond("GET", "/version", &empty_doc());
    assert_eq!(r.status, 200);
    assert_eq!(r.body, "1.0");
    let r = respond("GET", "/version", &two_user_doc());
    assert_eq!(r.status, 200);
    assert_eq!(r.body, "1.0");
}

#[test]
fn version_ignores_extra_arguments() {
    let r = respond("GET", "/version/extra", &two_user_doc());
    assert_eq!(r.status, 200);
    assert_eq!(r.body, "1.0");
}

#[test]
fn user_info_present_returns_record() {
    let doc = two_user_doc();
    let r = respond("GET", "/user_info/alice", &doc);
    assert_eq!(r.status, 200);
    assert_eq!(r.body, "{\"score\":5}");
    let r = respond("GET", "/user_info/bob", &doc);
    assert_eq!(r.status, 200);
    assert_eq!(r.body, "{\"score\":9}");
}

#[test]
fn user_info_absent_on_empty_document() {
    let r = respond("GET", "/user_info/alice", &empty_doc());
    assert_eq!(r.status, 404);
    assert_eq!(r.body, "404 Not found: user alice doesn't exist");
}

#[test]
fn user_info_is_case_sensitive() {
    let r = respond("GET", "/user_info/Alice", &two_user_doc());
    assert_eq!(r.status, 404);
    assert_eq!(r.body, "404 Not found: user Alice doesn't exist");
}

#[test]
fn user_info_wrong_argument_count() {
    let doc = two_user_doc();
    let r = respond("GET", "/user_info", &doc);
    assert_eq!(r.status, 404);
    assert_eq!(r.body, "404 Not found: expected 2 args (got 1)");
    let r = respond("GET", "/user_info/alice/extra", &doc);
    assert_eq!(r.status, 404);
    assert_eq!(r.body, "404 Not found: expected 2 args (got 3)");
}

#[test]
fn sort_by_scalar_field_descending() {
    let r = respond("GET", "/sort/score", &two_user_doc());
    assert_eq!(r.status, 200);
    assert_eq!(r.body, "[[\"bob\",9],[\"alice\",5]]");
}

#[test]
fn sort_wrong_argument_count() {
    let doc = two_user_doc();
    let r = respond("GET", "/sort", &doc);
    assert_eq!(r.status, 404);
    assert_eq!(r.body, "404 Not found: expected 2 args (got 1)");
}

#[test]
fn sort_missing_field_counts_as_zero() {
    let doc = Document {
        users: vec![
            UserEntry { name: "carol".to_string(), record: record("{}", vec![]) },
            UserEntry { name: "dave".to_string(), record: record("{\"score\":3}", vec![("score", 3)]) },
        ],
    };
    let r = respond("GET", "/sort/score", &doc);
    assert_eq!(r.status, 200);
    assert_eq!(r.body, "[[\"dave\",3],[\"carol\",0]]");
}

#[test]
fn sort_ties_keep_document_order() {
    let doc = Document {
        users: vec![
            UserEntry { name: "y".to_string(), record: record("{\"n\":1}", vec![("n", 1)]) },
            UserEntry { name: "x".to_string(), record: record("{\"n\":1}", vec![("n", 1)]) },
            UserEntry { name: "w".to_string(), record: record("{\"n\":2}", vec![("n", 2)]) },
        ],
    };
    let r = respond("GET", "/sort/n", &doc);
    assert_eq!(r.body, "[[\"w\",2],[\"y\",1],[\"x\",1]]");
}

#[test]
fn sort_on_empty_document() {
    let r = respond("GET", "/sort/score", &empty_doc());
    assert_eq!(r.status, 200);
    assert_eq!(r.body, "[]");
}

#[test]
fn unknown_endpoint() {
    let r = respond("GET", "/nope/x", &two_user_doc());
    assert_eq!(r.status, 404);
    assert_eq!(r.body, "404 Not found: unknown API endpoint: nope");
}

#[test]
fn non_get_method_is_unknown_endpoint() {
    let r = respond("POST", "/version", &two_user_doc());
    assert_eq!(r.status, 404);
    assert_eq!(r.body, "404 Not found: unknown API endpoint: version");
}

#[test]
fn path_without_leading_slash_is_invalid() {
    let r = respond("GET", "version", &two_user_doc());
    assert_eq!(r.status, 404);
    assert_eq!(r.body, "404 Not found: invalid HTTP GET request format");
    let r = respond("GET", "", &two_user_doc());
    assert_eq!(r.status, 404);
    assert_eq!(r.body, "404 Not found: invalid HTTP GET request format");
}

#[test]
fn repeated_requests_are_identical() {
    let doc = two_user_doc();
    for path in ["/version", "/user_info/alice", "/user_info/nobody", "/sort/score"] {
        let first = respond("GET", path, &doc);
        for _ in 0..3 {
            let again = respond("GET", path, &doc);
            assert_eq!(first.status, again.status);
            assert_eq!(first.body, again.body);
        }
    }
}

#[test]
fn missing_data_file_serves_empty_document() {
    // The startup path substitutes an empty document when the data file is
    // absent; the handlers then behave as on an empty user set.
    let doc = empty_doc();
    let r = respond("GET", "/version", &doc);
    assert_eq!(r.status, 200);
    assert_eq!(r.body, "1.0");
    let r = respond("GET", "/user_info/anyone", &doc);
    assert_eq!(r.status, 404);
    assert_eq!(r.body, "404 Not found: user anyone doesn't exist");
}

#[test]
fn sort_lists_every_stored_user_exactly_once() {
    let doc = Document {
        users: vec![
            UserEntry { name: "a".to_string(), record: record("{\"k\":2}", vec![("k", 2)]) },
            UserEntry { name: "b".to_string(), record: record("{\"k\":7}", vec![("k", 7)]) },
            UserEntry { name: "c".to_string(), record: record("{}", vec![]) },
        ],
    };
    let r = respond("GET", "/sort/k", &doc);
    let parsed: Vec<(String, i64)> = serde_json::from_str(&r.body).unwrap();
    let mut names: Vec<String> = parsed.iter().map(|p| p.0.clone()).collect();
    names.sort();
    assert_eq!(names, vec!["a".to_string(), "b".to_string(), "c".to_string()]);
}
