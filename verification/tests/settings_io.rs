use serpens_manager::settings::{
    default_settings, load_settings, parse_settings, serialize_settings, Settings,
};

#[test]
fn missing_file_yields_the_literal_defaults() {
    let s = load_settings(&None).unwrap();
    assert_eq!(s.blender_version, "5.0");
    assert_eq!(s.custom_path, "");
    assert!(s.auto_backup);
}

#[test]
fn defaults_serialize_to_the_canonical_document() {
    let text = serialize_settings(&default_settings());
    assert_eq!(
        text,
        "{\n  \"blenderVersion\": \"5.0\",\n  \"customPath\": \"\",\n  \"autoBackup\": true\n}"
    );
}

#[test]
fn save_then_load_round_trips_exactly() {
    let s = Settings {
        blender_version: "4.2".to_string(),
        custom_path: "D:/blender/addons".to_string(),
        auto_backup: false,
    };
    let text = serialize_settings(&s);
    let back = load_settings(&Some(text)).unwrap();
    assert_eq!(back.blender_version, "4.2");
    assert_eq!(back.custom_path, "D:/blender/addons");
    assert!(!back.auto_backup);
}

#[test]
fn round_trip_keeps_quotes_and_backslashes() {
    let s = Settings {
        blender_version: "5.0".to_string(),
        custom_path: "C:\\Program Files\\\"Blender\"".to_string(),
        auto_backup: true,
    };
    let text = serialize_settings(&s);
    let back = parse_settings(&text).unwrap();
    assert_eq!(back.custom_path, "C:\\Program Files\\\"Blender\"");
    assert_eq!(back.blender_version, "5.0");
    assert!(back.auto_backup);
}

#[test]
fn unreadable_document_is_a_parse_error() {
    let r = load_settings(&Some("not a settings file".to_string()));
    assert_eq!(r.err().unwrap(), "Failed to parse settings");
}

#[test]
fn trailing_junk_is_rejected() {
    let mut text = serialize_settings(&default_settings());
    text.push_str("garbage");
    assert!(parse_settings(&text).is_none());
}

#[test]
fn truncated_document_is_rejected() {
    let text = serialize_settings(&default_settings());
    let cut = &text[..text.len() - 2];
    assert!(parse_settings(cut).is_none());
}
