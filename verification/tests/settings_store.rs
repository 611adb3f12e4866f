use serde_json::Value;
use ssmt::settings::{settings_error_message, validate_key, PluginSettingsError, PluginSettingsState, PluginSettingsStore};

fn store() -> PluginSettingsStore {
    PluginSettingsStore::new("/tmp/plugin-settings.json".to_string(), PluginSettingsState::empty())
}

#[test]
fn rejects_path_like_keys() {
    let mut store = store();
    assert!(matches!(
        store.set("ssmt.fixture", "../secret", Value::Null),
        Err(PluginSettingsError::InvalidKey(_))
    ));
}

#[test]
fn persists_namespaced_values() {
    let mut store = store();
    store.set("ssmt.fixture", "timeoutMs", Value::from(15000)).unwrap();
    assert_eq!(store.get("ssmt.fixture", "timeoutMs").unwrap(), Some(Value::from(15000)));
    assert_eq!(store.get("ssmt.other", "timeoutMs").unwrap(), None);
    store.set("ssmt.fixture", "timeoutMs", Value::from(20)).unwrap();
    store.set("ssmt.fixture", "mode", Value::from("fast")).unwrap();
    store.set("ssmt.other", "timeoutMs", Value::Bool(true)).unwrap();
    assert_eq!(store.get("ssmt.fixture", "timeoutMs").unwrap(), Some(Value::from(20)));
    assert_eq!(store.get("ssmt.fixture", "mode").unwrap(), Some(Value::from("fast")));
    assert_eq!(store.get("ssmt.other", "timeoutMs").unwrap(), Some(Value::Bool(true)));
    assert_eq!(store.path(), "/tmp/plugin-settings.json");
    let namespaces = &store.state().namespaces;
    assert_eq!(namespaces.len(), 2);
    assert_eq!(namespaces[0].1.len(), 2);
}

#[test]
fn keys_are_checked() {
    assert!(validate_key("timeoutMs").is_ok());
    assert!(validate_key("").is_err());
    assert!(validate_key("a/b").is_err());
    assert!(validate_key("a\\b").is_err());
    assert!(validate_key("tab\there").is_err());
    assert!(validate_key(&"k".repeat(128)).is_ok());
    assert!(validate_key(&"k".repeat(129)).is_err());
    assert!(validate_key(&"é".repeat(64)).is_ok());
    assert!(validate_key(&"é".repeat(65)).is_err());
    assert!(matches!(store().get("ssmt.fixture", ""), Err(PluginSettingsError::InvalidKey(_))));
}

#[test]
fn settings_messages() {
    assert_eq!(
        settings_error_message(&PluginSettingsError::InvalidKey("a/b".to_string())),
        "invalid plugin settings key: a/b"
    );
    assert_eq!(
        settings_error_message(&PluginSettingsError::InvalidState("bad".to_string())),
        "invalid plugin settings state: bad"
    );
}

#[test]
fn persists_namespaced_values_atomically() {
    let mut store = store();
    store.set("ssmt.fixture", "timeoutMs", Value::from(15000)).unwrap();
    // What is saved is the store's state; reopening starts from it.
    let saved = PluginSettingsState { namespaces: store.state().namespaces.clone() };
    let path = store.path().to_string();
    drop(store);
    let restored = PluginSettingsStore::new(path, saved);
    assert_eq!(restored.get("ssmt.fixture", "timeoutMs").unwrap(), Some(Value::from(15000)));
}
