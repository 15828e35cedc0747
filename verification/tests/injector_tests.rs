use flowtype::injector::{
    classify_window_title, is_editable_element, plan_injection, utf16_unit_count, ControlKey,
    ControlKind, FocusTarget, InjectionAction, Strategy, WindowContext,
};
use flowtype::shortcuts::{default_shortcuts, ShortcutTable};

fn b(s: &str) -> Vec<u8> {
    s.as_bytes().to_vec()
}

fn edit_focus() -> Option<FocusTarget> {
    Some(FocusTarget {
        keyboard_focusable: true,
        kind: ControlKind::Edit,
        writable_value: true,
        name: b("Search"),
    })
}

fn button_focus() -> Option<FocusTarget> {
    Some(FocusTarget {
        keyboard_focusable: true,
        kind: ControlKind::Button,
        writable_value: false,
        name: b("Send"),
    })
}

#[test]
fn test_window_classification() {
    assert_eq!(
        classify_window_title(&b("main.rs - Visual Studio Code")),
        WindowContext::Editor
    );
    assert_eq!(
        classify_window_title(&b("Inbox - Google Chrome")),
        WindowContext::Browser
    );
    assert_eq!(
        classify_window_title(&b("Report - Google Docs - Google Chrome")),
        WindowContext::Canvas
    );
    assert_eq!(
        classify_window_title(&b("Notes - Mozilla Firefox")),
        WindowContext::Browser
    );
    assert_eq!(classify_window_title(&b("Untitled - Notepad")), WindowContext::NativeApp);
}

#[test]
fn test_editability_gate() {
    assert!(is_editable_element(&edit_focus()));
    assert!(!is_editable_element(&button_focus()));
    assert!(!is_editable_element(&None));
    // A document needs a writable value facet and an editor-like name.
    let doc = |writable: bool, name: &str| {
        Some(FocusTarget {
            keyboard_focusable: true,
            kind: ControlKind::Document,
            writable_value: writable,
            name: b(name),
        })
    };
    assert!(is_editable_element(&doc(true, "Message Body - Compose")));
    assert!(!is_editable_element(&doc(false, "Message Body - Compose")));
    assert!(!is_editable_element(&doc(true, "Read-only view")));
    // Not keyboard-focusable refuses outright.
    let mut f = edit_focus().unwrap();
    f.keyboard_focusable = false;
    assert!(!is_editable_element(&Some(f)));
}

#[test]
fn test_command_shortcut_presses_backspace() {
    // "Delete!" normalizes to "delete": a backspace, no typed characters.
    let table = default_shortcuts();
    let plan = plan_injection(
        &b("Delete!"),
        false,
        true,
        false,
        &table,
        &b("Untitled - Notepad"),
        &edit_focus(),
    );
    assert!(matches!(
        plan.action,
        InjectionAction::Press(ControlKey::Backspace)
    ));
}

#[test]
fn test_command_trailing_punctuation_is_equivalent() {
    let table = default_shortcuts();
    let title = b("Untitled - Notepad");
    let with_dot = plan_injection(&b("delete."), false, true, false, &table, &title, &edit_focus());
    let bare = plan_injection(&b("delete"), false, true, false, &table, &title, &edit_focus());
    assert!(matches!(
        with_dot.action,
        InjectionAction::Press(ControlKey::Backspace)
    ));
    assert!(matches!(
        bare.action,
        InjectionAction::Press(ControlKey::Backspace)
    ));
}

#[test]
fn test_command_tokens() {
    let mut table = ShortcutTable::new();
    table.upsert(b("delete that"), b("[DELETE_LINE]"));
    table.upsert(b("enter"), b("[ENTER]"));
    table.upsert(b("scratch that"), b("[DELETE]"));
    let title = b("Untitled - Notepad");
    let plan = plan_injection(&b("delete that"), false, true, false, &table, &title, &edit_focus());
    assert!(matches!(plan.action, InjectionAction::DeleteLine));
    let plan = plan_injection(&b("Enter"), false, true, false, &table, &title, &edit_focus());
    assert!(matches!(plan.action, InjectionAction::Press(ControlKey::Enter)));
    let plan = plan_injection(&b("scratch that"), false, true, false, &table, &title, &edit_focus());
    assert!(matches!(plan.action, InjectionAction::Press(ControlKey::Delete)));
}

#[test]
fn test_shortcut_replacement_text_is_typed() {
    let mut table = ShortcutTable::new();
    table.upsert(b("mail"), b("me@example.test"));
    let plan = plan_injection(
        &b("mail"),
        false,
        true,
        false,
        &table,
        &b("Untitled - Notepad"),
        &edit_focus(),
    );
    match plan.action {
        InjectionAction::Type { text, strategies } => {
            assert_eq!(text, b("me@example.test"));
            assert_eq!(
                strategies,
                vec![
                    Strategy::AccessibilityAppend,
                    Strategy::UnicodeKeys,
                    Strategy::ClipboardPaste
                ]
            );
        }
        _ => panic!("expected a typing action"),
    }
}

#[test]
fn test_punctuation_stripping() {
    // disable_punctuation: "hello, world!!" is injected as "hello world".
    let table = default_shortcuts();
    let plan = plan_injection(
        &b("hello, world!!"),
        false,
        true,
        true,
        &table,
        &b("Untitled - Notepad"),
        &edit_focus(),
    );
    assert_eq!(plan.cleaned, b("hello world"));
    match plan.action {
        InjectionAction::Type { text, .. } => assert_eq!(text, b("hello world")),
        _ => panic!("expected a typing action"),
    }
}

#[test]
fn test_browser_safety_gate() {
    // A button focused in a browser: no input events at all.
    let table = default_shortcuts();
    let plan = plan_injection(
        &b("x"),
        false,
        true,
        false,
        &table,
        &b("Inbox - Google Chrome"),
        &button_focus(),
    );
    assert!(matches!(plan.action, InjectionAction::Nothing));
    // With an editable element the browser pastes.
    let plan = plan_injection(
        &b("x"),
        false,
        true,
        false,
        &table,
        &b("Inbox - Google Chrome"),
        &edit_focus(),
    );
    match plan.action {
        InjectionAction::Type { strategies, .. } => {
            assert_eq!(strategies, vec![Strategy::ClipboardPaste]);
        }
        _ => panic!("expected a typing action"),
    }
}

#[test]
fn test_editor_path() {
    // Editors bypass the editability gate; keystroke synthesis comes first and
    // "fn main" is seven UTF-16 units, hence fourteen key events.
    let table = default_shortcuts();
    let plan = plan_injection(
        &b("fn main"),
        false,
        true,
        false,
        &table,
        &b("main.rs - Visual Studio Code"),
        &button_focus(),
    );
    match plan.action {
        InjectionAction::Type { text, strategies } => {
            assert_eq!(text, b("fn main"));
            assert_eq!(
                strategies,
                vec![Strategy::UnicodeKeys, Strategy::ClipboardPaste]
            );
            let units = utf16_unit_count(&text);
            assert_eq!(units, 7);
            assert_eq!(2 * units, 14);
        }
        _ => panic!("expected a typing action"),
    }
}

#[test]
fn test_utf16_unit_count() {
    assert_eq!(utf16_unit_count(&b("fn main")), 7);
    assert_eq!(utf16_unit_count(&b("")), 0);
    // Two-byte and three-byte characters are one unit each.
    assert_eq!(utf16_unit_count(&"é€".as_bytes().to_vec()), 2);
    // A four-byte character is a surrogate pair: two units.
    assert_eq!(utf16_unit_count(&"🎤".as_bytes().to_vec()), 2);
}

#[test]
fn test_auto_space_appends() {
    let table = default_shortcuts();
    let plan = plan_injection(
        &b("hi"),
        true,
        false,
        false,
        &table,
        &b("Untitled - Notepad"),
        &edit_focus(),
    );
    assert_eq!(plan.cleaned, b("hi "));
    match plan.action {
        InjectionAction::Type { text, .. } => assert_eq!(text, b("hi ")),
        _ => panic!("expected a typing action"),
    }
}

#[test]
fn test_empty_after_commands_does_nothing() {
    let table = default_shortcuts();
    let plan = plan_injection(
        &b("   "),
        false,
        true,
        true,
        &table,
        &b("Untitled - Notepad"),
        &edit_focus(),
    );
    assert!(matches!(plan.action, InjectionAction::Nothing));
}

#[test]
fn test_commands_disabled_types_the_phrase() {
    let table = default_shortcuts();
    let plan = plan_injection(
        &b("delete"),
        false,
        false,
        false,
        &table,
        &b("Untitled - Notepad"),
        &edit_focus(),
    );
    match plan.action {
        InjectionAction::Type { text, .. } => assert_eq!(text, b("delete")),
        _ => panic!("expected a typing action"),
    }
}
