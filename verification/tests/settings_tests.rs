use flowtype::settings::{AppSettings, SettingsManager};
use flowtype::shortcuts::{default_shortcuts, ShortcutTable};

fn b(s: &str) -> Vec<u8> {
    s.as_bytes().to_vec()
}

#[test]
fn test_default_settings() {
    let s = AppSettings::default();
    assert!(s.auto_space);
    assert_eq!(s.silence_timeout, 500);
    assert!(s.allow_commands);
    assert!(!s.disable_punctuation);
    assert_eq!(s.shortcuts.len(), 6);
}

#[test]
fn test_default_shortcuts_contents() {
    let t = default_shortcuts();
    assert_eq!(t.get(&b("delete")), Some(&b("[BACKSPACE]")));
    assert_eq!(t.get(&b("backspace")), Some(&b("[BACKSPACE]")));
    assert_eq!(t.get(&b("delete that")), Some(&b("[DELETE_LINE]")));
    assert_eq!(t.get(&b("new line")), Some(&b("[ENTER]")));
    assert_eq!(t.get(&b("enter")), Some(&b("[ENTER]")));
    assert_eq!(t.get(&b("space")), Some(&b(" ")));
    assert_eq!(t.get(&b("missing")), None);
}

#[test]
fn test_table_upsert_and_remove() {
    let mut t = ShortcutTable::new();
    t.upsert(b("mail"), b("me@example.test"));
    assert_eq!(t.get(&b("mail")), Some(&b("me@example.test")));
    t.upsert(b("mail"), b("other@example.test"));
    assert_eq!(t.len(), 1);
    assert_eq!(t.get(&b("mail")), Some(&b("other@example.test")));
    t.remove(&b("mail"));
    assert_eq!(t.get(&b("mail")), None);
    assert_eq!(t.len(), 0);
}

#[test]
fn test_manager_setters() {
    let mut m = SettingsManager::new(AppSettings::default());
    m.set_auto_space(false);
    m.set_silence_timeout(900);
    m.set_allow_commands(false);
    m.set_disable_punctuation(true);
    let s = m.get_settings();
    assert!(!s.auto_space);
    assert_eq!(s.silence_timeout, 900);
    assert!(!s.allow_commands);
    assert!(s.disable_punctuation);
}

#[test]
fn test_manager_shortcut_keys_are_lowercased() {
    let mut m = SettingsManager::new(AppSettings::default());
    m.upsert_shortcut(b("New Paragraph"), b("[ENTER]"));
    assert_eq!(
        m.get_settings().shortcuts.get(&b("new paragraph")),
        Some(&b("[ENTER]"))
    );
    m.delete_shortcut(b("NEW PARAGRAPH"));
    assert_eq!(m.get_settings().shortcuts.get(&b("new paragraph")), None);
}

#[test]
fn test_table_duplicate_is_deep() {
    let t = default_shortcuts();
    let copy = t.duplicate();
    assert_eq!(copy.len(), t.len());
    assert_eq!(copy.get(&b("delete")), Some(&b("[BACKSPACE]")));
}
