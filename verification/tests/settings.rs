use dbx_core::json::JsonValue;
use dbx_core::settings::{AppSettings, DesktopSettings};

/// Writes the settings out as stored text and reads them back, as storing
/// them and loading them again does.
fn stored(settings: AppSettings) -> AppSettings {
    let text = settings.to_stored_text();
    AppSettings::from_stored_text(Some(&text)).expect("stored settings text reads back")
}

fn object(members: Vec<(&str, JsonValue)>) -> JsonValue {
    JsonValue::Object(members.into_iter().map(|(name, value)| (name.to_string(), value)).collect())
}

#[test]
fn desktop_settings_default_to_background_enabled() {
    let settings = stored(AppSettings::new());
    assert_eq!(settings.load_desktop_settings(), DesktopSettings { show_tray_icon: true });
}

#[test]
fn desktop_settings_ignore_legacy_background_preference() {
    let settings = AppSettings::from_document(object(vec![("run_in_background", JsonValue::Bool(false))]));
    assert_eq!(stored(settings).load_desktop_settings(), DesktopSettings { show_tray_icon: true });
}

#[test]
fn desktop_settings_preserve_existing_password_hash() {
    let mut settings = stored(AppSettings::new());
    settings.save_password_hash("hash-1");
    let mut settings = stored(settings);
    settings.save_desktop_settings(&DesktopSettings { show_tray_icon: false });
    let settings = stored(settings);

    assert_eq!(settings.load_password_hash(), Some("hash-1".to_string()));
    assert_eq!(settings.load_desktop_settings(), DesktopSettings { show_tray_icon: false });
}

#[test]
fn desktop_settings_save_removes_legacy_background_preference() {
    let mut settings = stored(AppSettings::from_document(object(vec![(
        "run_in_background",
        JsonValue::Bool(false),
    )])));
    settings.save_desktop_settings(&DesktopSettings { show_tray_icon: true });
    let settings = stored(settings);

    assert_eq!(settings.get("run_in_background"), None);
    assert_eq!(settings.get("show_tray_icon").and_then(|value| value.as_bool()), Some(true));
}

#[test]
fn password_hash_preserves_existing_desktop_settings() {
    let mut settings = stored(AppSettings::new());
    settings.save_desktop_settings(&DesktopSettings { show_tray_icon: false });
    let mut settings = stored(settings);
    settings.save_password_hash("hash-2");
    let settings = stored(settings);

    assert_eq!(settings.load_password_hash(), Some("hash-2".to_string()));
    assert_eq!(settings.load_desktop_settings(), DesktopSettings { show_tray_icon: false });
}

#[test]
fn pinned_tree_node_ids_default_to_empty() {
    let settings = stored(AppSettings::new());
    assert_eq!(settings.load_pinned_tree_node_ids(), Vec::<String>::new());
}

#[test]
fn pinned_tree_node_ids_roundtrip_and_preserve_password_hash() {
    let mut settings = stored(AppSettings::new());
    settings.save_password_hash("hash-3");
    let mut settings = stored(settings);
    settings.save_pinned_tree_node_ids(&["conn-1".to_string(), "conn-1:db:main".to_string()]);
    let settings = stored(settings);

    assert_eq!(
        settings.load_pinned_tree_node_ids(),
        vec!["conn-1".to_string(), "conn-1:db:main".to_string()]
    );
    assert_eq!(settings.load_password_hash(), Some("hash-3".to_string()));
}

#[test]
fn desktop_settings_default_impl_shows_tray_icon() {
    assert_eq!(DesktopSettings::default(), DesktopSettings { show_tray_icon: true });
}

#[test]
fn non_object_document_reads_as_no_settings() {
    let settings = AppSettings::from_document(JsonValue::Array(vec![JsonValue::Bool(true)]));
    assert_eq!(settings.into_document(), JsonValue::Object(vec![]));
    let settings = AppSettings::from_document(JsonValue::Null);
    assert_eq!(settings.load_password_hash(), None);
    assert_eq!(settings.load_desktop_settings(), DesktopSettings { show_tray_icon: true });
}

#[test]
fn later_member_of_same_name_wins() {
    let settings = AppSettings::from_document(object(vec![
        ("password_hash", JsonValue::Str("old".to_string())),
        ("show_tray_icon", JsonValue::Bool(true)),
        ("password_hash", JsonValue::Str("new".to_string())),
    ]));
    assert_eq!(settings.load_password_hash(), Some("new".to_string()));
    assert_eq!(
        settings.into_document(),
        object(vec![
            ("password_hash", JsonValue::Str("new".to_string())),
            ("show_tray_icon", JsonValue::Bool(true)),
        ])
    );
}

#[test]
fn non_string_password_hash_reads_as_none() {
    let settings = AppSettings::from_document(object(vec![(
        "password_hash",
        JsonValue::Number(serde_json::Number::from(7)),
    )]));
    assert_eq!(settings.load_password_hash(), None);
}

#[test]
fn non_boolean_tray_preference_reads_as_default() {
    let settings =
        AppSettings::from_document(object(vec![("show_tray_icon", JsonValue::Str("false".to_string()))]));
    assert_eq!(settings.load_desktop_settings(), DesktopSettings { show_tray_icon: true });
}

#[test]
fn pinned_ids_skip_non_string_items() {
    let settings = AppSettings::from_document(object(vec![(
        "pinned_tree_node_ids",
        JsonValue::Array(vec![
            JsonValue::Str("a".to_string()),
            JsonValue::Bool(true),
            JsonValue::Null,
            JsonValue::Str("b".to_string()),
        ]),
    )]));
    assert_eq!(settings.load_pinned_tree_node_ids(), vec!["a".to_string(), "b".to_string()]);
}

#[test]
fn pinned_ids_member_that_is_not_an_array_reads_as_empty() {
    let settings =
        AppSettings::from_document(object(vec![("pinned_tree_node_ids", JsonValue::Str("a".to_string()))]));
    assert_eq!(settings.load_pinned_tree_node_ids(), Vec::<String>::new());
}

#[test]
fn saving_keeps_unrelated_members() {
    let mut settings = AppSettings::from_document(object(vec![
        ("theme", JsonValue::Str("dark".to_string())),
        ("font_size", JsonValue::Number(serde_json::Number::from(14))),
    ]));
    settings.save_password_hash("h");
    settings.save_desktop_settings(&DesktopSettings { show_tray_icon: false });
    settings.save_pinned_tree_node_ids(&["x".to_string()]);
    assert_eq!(settings.get("theme"), Some(&JsonValue::Str("dark".to_string())));
    assert_eq!(settings.get("font_size"), Some(&JsonValue::Number(serde_json::Number::from(14))));
    assert_eq!(
        settings.get("pinned_tree_node_ids"),
        Some(&JsonValue::Array(vec![JsonValue::Str("x".to_string())]))
    );
}

#[test]
fn saving_twice_replaces_the_member() {
    let mut settings = AppSettings::new();
    settings.save_password_hash("first");
    settings.save_password_hash("second");
    assert_eq!(settings.load_password_hash(), Some("second".to_string()));
    assert_eq!(
        settings.into_document(),
        JsonValue::Object(vec![("password_hash".to_string(), JsonValue::Str("second".to_string()))])
    );
}

#[test]
fn insert_get_and_remove_members() {
    let mut settings = AppSettings::new();
    settings.insert("a".to_string(), JsonValue::Bool(true));
    settings.insert("b".to_string(), JsonValue::Null);
    assert_eq!(settings.get("a"), Some(&JsonValue::Bool(true)));
    settings.remove("a");
    settings.remove("missing");
    assert_eq!(settings.get("a"), None);
    assert_eq!(settings.get("b"), Some(&JsonValue::Null));
}

#[test]
fn json_value_accessors() {
    assert_eq!(JsonValue::Str("s".to_string()).as_str(), Some(&"s".to_string()));
    assert_eq!(JsonValue::Bool(false).as_str(), None);
    assert_eq!(JsonValue::Bool(false).as_bool(), Some(false));
    assert_eq!(JsonValue::Null.as_bool(), None);
    assert_eq!(JsonValue::Array(vec![]).as_array(), Some(&vec![]));
    assert_eq!(JsonValue::Object(vec![]).as_array(), None);
}

#[test]
fn saved_settings_survive_several_later_saves() {
    let mut settings = AppSettings::new();
    settings.save_pinned_tree_node_ids(&["p".to_string(), "".to_string(), "p".to_string()]);
    settings.save_password_hash("h1");
    settings = stored(settings);
    settings.save_desktop_settings(&DesktopSettings { show_tray_icon: false });
    settings.save_password_hash("h2");
    settings = stored(settings);
    settings.save_desktop_settings(&DesktopSettings { show_tray_icon: true });
    assert_eq!(
        settings.load_pinned_tree_node_ids(),
        vec!["p".to_string(), "".to_string(), "p".to_string()]
    );
    assert_eq!(settings.load_password_hash(), Some("h2".to_string()));
    assert_eq!(settings.load_desktop_settings(), DesktopSettings { show_tray_icon: true });
}

#[test]
fn no_stored_settings_read_as_empty() {
    let settings = AppSettings::from_stored_text(None).expect("no row reads as empty settings");
    assert_eq!(settings.load_password_hash(), None);
    assert_eq!(settings.load_desktop_settings(), DesktopSettings { show_tray_icon: true });
    assert_eq!(settings.load_pinned_tree_node_ids(), Vec::<String>::new());
}

#[test]
fn stored_settings_text_that_is_not_json_is_an_error() {
    assert!(AppSettings::from_stored_text(Some("{not json")).is_err());
    assert!(AppSettings::from_stored_text(Some("")).is_err());
}

#[test]
fn stored_settings_text_that_is_not_an_object_reads_as_empty() {
    let settings = AppSettings::from_stored_text(Some("[1, 2, 3]")).expect("JSON text reads");
    assert_eq!(settings.get("password_hash"), None);
    let settings = AppSettings::from_stored_text(Some("\"hash\"")).expect("JSON text reads");
    assert_eq!(settings.load_password_hash(), None);
}

#[test]
fn stored_settings_text_is_read_member_by_member() {
    let settings = AppSettings::from_stored_text(Some(
        r#"{"password_hash":"h","show_tray_icon":false,"pinned_tree_node_ids":["a","b"]}"#,
    ))
    .expect("settings text reads");
    assert_eq!(settings.load_password_hash(), Some("h".to_string()));
    assert_eq!(settings.load_desktop_settings(), DesktopSettings { show_tray_icon: false });
    assert_eq!(settings.load_pinned_tree_node_ids(), vec!["a".to_string(), "b".to_string()]);
}

#[test]
fn stored_settings_text_is_the_json_object() {
    let mut settings = AppSettings::new();
    settings.save_password_hash("h");
    assert_eq!(settings.to_stored_text(), r#"{"password_hash":"h"}"#);
    assert_eq!(AppSettings::new().to_stored_text(), "{}");
}

#[test]
fn json_text_parses_into_values() {
    assert_eq!(JsonValue::parse("true"), Ok(JsonValue::Bool(true)));
    assert_eq!(JsonValue::parse("null"), Ok(JsonValue::Null));
    assert_eq!(JsonValue::parse("\"x\""), Ok(JsonValue::Str("x".to_string())));
    assert_eq!(
        JsonValue::parse(r#"{"a":[false,"b"]}"#),
        Ok(object(vec![(
            "a",
            JsonValue::Array(vec![JsonValue::Bool(false), JsonValue::Str("b".to_string())])
        )]))
    );
    assert!(JsonValue::parse("tru").is_err());
}

#[test]
fn stored_json_column_parses() {
    assert_eq!(JsonValue::parse_stored(None), Ok(None));
    assert_eq!(JsonValue::parse_stored(Some("false")), Ok(Some(JsonValue::Bool(false))));
    assert!(JsonValue::parse_stored(Some("{")).is_err());
}

#[test]
fn json_values_are_written_as_text() {
    assert_eq!(JsonValue::Bool(true).to_text(), "true");
    assert_eq!(JsonValue::Null.to_text(), "null");
    assert_eq!(JsonValue::Str("a\"b".to_string()).to_text(), r#""a\"b""#);
    let value = object(vec![("k", JsonValue::Array(vec![JsonValue::Str("v".to_string())]))]);
    assert_eq!(value.to_text(), r#"{"k":["v"]}"#);
    assert_eq!(JsonValue::parse(&value.to_text()), Ok(value));
}

#[test]
fn json_numbers_are_carried_through_text() {
    let value = JsonValue::parse("[1,2.5]").expect("numbers read");
    assert_eq!(value.to_text(), "[1,2.5]");
}
