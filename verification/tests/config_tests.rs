use mycapslock::actions::{parse_action, Action, MappingTable};
use mycapslock::config::{default_hold_threshold, default_true, AppConfig, Config, CursorMap, Settings, DEFAULT_TOML};
use mycapslock::keys::{char_to_vk, Key, MOD_ALT, MOD_NONE};
use std::path::PathBuf;

fn entries(c: &CursorMap) -> Vec<(String, String)> {
    c.entries().clone()
}

#[test]
fn default_config_holds_readme_bindings() {
    let cfg = Config::default_config();
    assert_eq!(cfg.settings.hold_threshold_ms, 200);
    assert!(cfg.settings.tap_to_toggle);
    let e = entries(&cfg.mappings.cursor);
    assert_eq!(e.len(), 20);
    let expect = [
        ("e", "Up"),
        ("s", "Left"),
        ("d", "Down"),
        ("f", "Right"),
        ("w", "Home"),
        ("r", "End"),
        ("i", "Shift+Up"),
        ("j", "Shift+Left"),
        ("k", "Shift+Down"),
        ("l", "Shift+Right"),
        ("u", "Shift+Home"),
        ("o", "Shift+End"),
        ("n", "Backspace"),
        ("m", "Delete"),
        ("y", "Shift+Home, Delete"),
        ("h", "Shift+End, Delete"),
        ("backspace", "Home, Shift+End, Delete"),
        ("space", "Home, Shift+End"),
        ("alt+enter", "Home, Enter, Up"),
        ("enter", "End, Enter"),
    ];
    for (i, (name, action)) in expect.iter().enumerate() {
        assert_eq!(e[i].0, *name);
        assert_eq!(e[i].1, *action);
    }
}

#[test]
fn every_default_binding_resolves() {
    let cfg = Config::default_config();
    for (name, action) in entries(&cfg.mappings.cursor) {
        assert!(char_to_vk(&name).is_some(), "{}", name);
        assert!(parse_action(&action).is_some(), "{}", action);
    }
    let t = MappingTable::from_cursor_mappings(&cfg.mappings.cursor);
    assert_eq!(t.lookup(0x45, MOD_NONE), Some(Action::KeyPress(Key::UpArrow)));
    // Y deletes to the line start, H to the line end, Backspace the whole line
    assert_eq!(
        t.lookup(0x59, MOD_NONE),
        Some(Action::Sequence(vec![Action::KeyChord(vec![Key::Shift, Key::Home]), Action::KeyPress(Key::Delete)]))
    );
    assert_eq!(
        t.lookup(0x48, MOD_NONE),
        Some(Action::Sequence(vec![Action::KeyChord(vec![Key::Shift, Key::End]), Action::KeyPress(Key::Delete)]))
    );
    assert_eq!(
        t.lookup(0x08, MOD_NONE),
        Some(Action::Sequence(vec![
            Action::KeyPress(Key::Home),
            Action::KeyChord(vec![Key::Shift, Key::End]),
            Action::KeyPress(Key::Delete),
        ]))
    );
    assert_eq!(t.lookup(0xDC, MOD_NONE), None);
    assert_eq!(
        t.lookup(0x0D, MOD_ALT),
        Some(Action::Sequence(vec![
            Action::KeyPress(Key::Home),
            Action::KeyPress(Key::Return),
            Action::KeyPress(Key::UpArrow),
        ]))
    );
    assert_eq!(
        t.lookup(0x0D, MOD_NONE),
        Some(Action::Sequence(vec![Action::KeyPress(Key::End), Action::KeyPress(Key::Return)]))
    );
}

#[test]
fn default_toml_matches_default_config() {
    let value: toml::Value = toml::from_str(Config::default_toml_content()).unwrap();
    assert_eq!(Config::default_toml_content(), DEFAULT_TOML);
    let settings = value.get("settings").unwrap();
    assert_eq!(settings.get("hold_threshold_ms").unwrap().as_integer(), Some(200));
    assert_eq!(settings.get("tap_to_toggle").unwrap().as_bool(), Some(true));
    let cursor = value.get("mappings").unwrap().get("cursor").unwrap().as_table().unwrap();
    let cfg = Config::default_config();
    let e = entries(&cfg.mappings.cursor);
    assert_eq!(cursor.len(), e.len());
    for (name, action) in e {
        assert_eq!(cursor.get(&name).unwrap().as_str(), Some(action.as_str()));
    }
}

#[test]
fn settings_defaults() {
    let s = Settings::default();
    assert_eq!(s.hold_threshold_ms, 200);
    assert!(s.tap_to_toggle);
    assert_eq!(default_hold_threshold(), 200);
    assert!(default_true());
    let c = Config::default();
    assert_eq!(c.mappings.cursor.len(), 0);
}

#[test]
fn cursor_map_replaces_existing_names() {
    let mut c = CursorMap::new();
    c.insert("e".to_string(), "Up".to_string());
    c.insert("f".to_string(), "Right".to_string());
    c.insert("e".to_string(), "Down".to_string());
    assert_eq!(c.len(), 2);
    let e = entries(&c);
    assert_eq!(e[0], ("e".to_string(), "Down".to_string()));
    assert_eq!(e[1], ("f".to_string(), "Right".to_string()));
}

#[test]
fn reload_keeps_config_on_failure() {
    let mut app = AppConfig::new(Config::default_config(), PathBuf::from("config.toml"));
    app.reload(None);
    assert_eq!(app.config.mappings.cursor.len(), 20);
    let mut fresh = Config::default();
    fresh.settings.hold_threshold_ms = 350;
    app.reload(Some(fresh));
    assert_eq!(app.config.settings.hold_threshold_ms, 350);
    assert_eq!(app.config.mappings.cursor.len(), 0);
    assert_eq!(app.config_path, PathBuf::from("config.toml"));
}
