use transcribe_rs::bindings::{binding_map_from_bindings, key_from_shortcut_id, shortcut_id_from_key, BindingMap};
use transcribe_rs::config::{HotkeyBinding, HotkeyConfig};

#[test]
fn shortcut_ids_round_trip() {
    assert_eq!(shortcut_id_from_key("E"), "transcribe-e");
    assert_eq!(key_from_shortcut_id("transcribe-q"), Some("q".to_string()));
    assert_eq!(key_from_shortcut_id("other-q"), None);
    let id = shortcut_id_from_key("W");
    assert_eq!(key_from_shortcut_id(&id), Some("w".to_string()));
}

#[test]
fn binding_map_insert_replaces_and_get_reads_back() {
    let mut m = BindingMap::new();
    assert!(m.is_empty());
    let b = |p: Option<&str>| HotkeyBinding { key: "e".to_string(), prompt: p.map(|s| s.to_string()), ocr: false, gui: false };
    m.insert("transcribe-e".to_string(), b(None));
    m.insert("transcribe-e".to_string(), b(Some("clean")));
    assert_eq!(m.len(), 1);
    assert_eq!(m.get("transcribe-e").unwrap().prompt.as_deref(), Some("clean"));
    assert!(m.get("transcribe-x").is_none());
}

#[test]
fn default_bindings_give_five_shortcuts() {
    let config = HotkeyConfig::default();
    let m = binding_map_from_bindings(&config.bindings);
    assert_eq!(m.len(), 5);
    assert_eq!(m.get("transcribe-q").unwrap().prompt.as_deref(), Some("clean"));
    assert!(m.get("transcribe-t").unwrap().gui);
    assert!(m.get("transcribe-r").unwrap().ocr);
}
