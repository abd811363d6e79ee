use dbx_core::migration::{legacy_secrets, parse_legacy_secret_key, read_legacy_secrets};

fn parts(key: &str) -> Option<(String, String)> {
    parse_legacy_secret_key(key)
}

#[test]
fn legacy_key_names_connection_and_field() {
    assert_eq!(parts("connection:abc:password"), Some(("abc".to_string(), "password".to_string())));
}

#[test]
fn legacy_key_field_keeps_later_colons() {
    assert_eq!(parts("connection:abc:a:b"), Some(("abc".to_string(), "a:b".to_string())));
}

#[test]
fn legacy_key_may_have_empty_parts() {
    assert_eq!(parts("connection::"), Some((String::new(), String::new())));
}

#[test]
fn legacy_key_of_another_kind_is_skipped() {
    assert_eq!(parts("settings:abc:password"), None);
    assert_eq!(parts("connections:abc:password"), None);
    assert_eq!(parts("connection"), None);
    assert_eq!(parts("connection:abc"), None);
    assert_eq!(parts(""), None);
}

#[test]
fn legacy_key_with_unicode_id() {
    assert_eq!(parts("connection:数据库:ssh_password"), Some(("数据库".to_string(), "ssh_password".to_string())));
}

#[test]
fn legacy_entries_keep_only_connection_secrets() {
    let found = legacy_secrets(vec![
        ("connection:c1:password".to_string(), "pw".to_string()),
        ("other".to_string(), "x".to_string()),
        ("connection:c2:proxy_password".to_string(), "pp".to_string()),
    ]);
    let found: Vec<(String, String, String)> =
        found.into_iter().map(|s| (s.connection_id, s.key, s.secret)).collect();
    assert_eq!(
        found,
        vec![
            ("c1".to_string(), "password".to_string(), "pw".to_string()),
            ("c2".to_string(), "proxy_password".to_string(), "pp".to_string()),
        ]
    );
}

#[test]
fn legacy_file_text_is_read() {
    let text = r#"{"connection:c1:password":"pw","connection:c1:ssh_password":"sp","junk":"j"}"#;
    let mut found: Vec<(String, String, String)> =
        read_legacy_secrets(text).into_iter().map(|s| (s.connection_id, s.key, s.secret)).collect();
    found.sort();
    assert_eq!(
        found,
        vec![
            ("c1".to_string(), "password".to_string(), "pw".to_string()),
            ("c1".to_string(), "ssh_password".to_string(), "sp".to_string()),
        ]
    );
}

#[test]
fn unreadable_legacy_file_holds_nothing() {
    assert!(read_legacy_secrets("not json").is_empty());
    assert!(read_legacy_secrets(r#"{"connection:c1:password": 5}"#).is_empty());
    assert!(read_legacy_secrets("[]").is_empty());
}
