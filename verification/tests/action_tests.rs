use mycapslock::actions::{parse_action, parse_single_action, Action, KeyDirection, MappingTable};
use mycapslock::config::CursorMap;
use mycapslock::keys::{char_to_vk, key_from_lowercase, str_to_key, Key, MOD_ALT, MOD_CTRL, MOD_META, MOD_NONE, MOD_SHIFT};

fn table(pairs: &[(&str, &str)]) -> MappingTable {
    let mut cursor = CursorMap::new();
    for (name, action) in pairs {
        cursor.insert(name.to_string(), action.to_string());
    }
    MappingTable::from_cursor_mappings(&cursor)
}

#[test]
fn action_key_names() {
    assert_eq!(str_to_key("Up"), Some(Key::UpArrow));
    assert_eq!(str_to_key("DOWN"), Some(Key::DownArrow));
    assert_eq!(str_to_key("left"), Some(Key::LeftArrow));
    assert_eq!(str_to_key("Right"), Some(Key::RightArrow));
    assert_eq!(str_to_key("PageUp"), Some(Key::PageUp));
    assert_eq!(str_to_key("pagedown"), Some(Key::PageDown));
    assert_eq!(str_to_key("Esc"), Some(Key::Escape));
    assert_eq!(str_to_key("Escape"), Some(Key::Escape));
    assert_eq!(str_to_key("Return"), Some(Key::Return));
    assert_eq!(str_to_key("Enter"), Some(Key::Return));
    assert_eq!(str_to_key("Ctrl"), Some(Key::Control));
    assert_eq!(str_to_key("Control"), Some(Key::Control));
    assert_eq!(str_to_key("Win"), Some(Key::Meta));
    assert_eq!(str_to_key("windows"), Some(Key::Meta));
    assert_eq!(str_to_key("Meta"), Some(Key::Meta));
    assert_eq!(str_to_key("F1"), Some(Key::F1));
    assert_eq!(str_to_key("f12"), Some(Key::F12));
    assert_eq!(str_to_key("Space"), Some(Key::Space));
    assert_eq!(str_to_key("Tab"), Some(Key::Tab));
    assert_eq!(str_to_key("Backspace"), Some(Key::Backspace));
    assert_eq!(str_to_key("Delete"), Some(Key::Delete));
}

#[test]
fn action_single_characters() {
    assert_eq!(str_to_key("A"), Some(Key::Unicode('a')));
    assert_eq!(str_to_key("7"), Some(Key::Unicode('7')));
    assert_eq!(str_to_key(","), Some(Key::Unicode(',')));
    assert_eq!(str_to_key("~"), Some(Key::Unicode('~')));
    assert_eq!(str_to_key(" "), None);
    assert_eq!(str_to_key("é"), None);
    assert_eq!(str_to_key(""), None);
    assert_eq!(str_to_key("f13"), None);
    // names are not trimmed here
    assert_eq!(str_to_key(" up"), None);
}

#[test]
fn lowercase_names_decide_the_key() {
    assert_eq!(key_from_lowercase("home"), Some(Key::Home));
    assert_eq!(key_from_lowercase("Home"), None);
    assert_eq!(key_from_lowercase("x"), Some(Key::Unicode('x')));
    assert_eq!(key_from_lowercase("\t"), None);
}

#[test]
fn parse_single_keys_and_chords() {
    assert_eq!(parse_single_action(" Up "), Some(Action::KeyPress(Key::UpArrow)));
    assert_eq!(parse_single_action("Ctrl+Left"), Some(Action::KeyChord(vec![Key::Control, Key::LeftArrow])));
    assert_eq!(
        parse_single_action("ctrl + shift + end"),
        Some(Action::KeyChord(vec![Key::Control, Key::Shift, Key::End]))
    );
    assert_eq!(parse_single_action("Ctrl+"), None);
    assert_eq!(parse_single_action("+"), None);
    assert_eq!(parse_single_action("Ctrl+Nope"), None);
    assert_eq!(parse_single_action("Nope"), None);
}

#[test]
fn parse_sequences() {
    assert_eq!(
        parse_action("Home, Shift+End, Delete"),
        Some(Action::Sequence(vec![
            Action::KeyPress(Key::Home),
            Action::KeyChord(vec![Key::Shift, Key::End]),
            Action::KeyPress(Key::Delete),
        ]))
    );
    assert_eq!(parse_action("Up"), Some(Action::KeyPress(Key::UpArrow)));
    assert_eq!(parse_action("Home,"), None);
    assert_eq!(parse_action("Home, Bogus"), None);
    assert_eq!(parse_action(","), None);
    assert_eq!(parse_action("  Shift+Up  "), Some(Action::KeyChord(vec![Key::Shift, Key::UpArrow])));
}

#[test]
fn trigger_names_with_modifiers() {
    assert_eq!(char_to_vk("e"), Some((0x45, MOD_NONE)));
    assert_eq!(char_to_vk("E"), Some((0x45, MOD_NONE)));
    assert_eq!(char_to_vk("5"), Some((0x35, MOD_NONE)));
    assert_eq!(char_to_vk("shift+e"), Some((0x45, MOD_SHIFT)));
    assert_eq!(char_to_vk("Ctrl+a"), Some((0x41, MOD_CTRL)));
    assert_eq!(char_to_vk("alt+enter"), Some((0x0D, MOD_ALT)));
    assert_eq!(char_to_vk("meta+x"), Some((0x58, MOD_META)));
    assert_eq!(char_to_vk("win+x"), Some((0x58, MOD_META)));
    assert_eq!(char_to_vk(" alt+ e "), Some((0x45, MOD_ALT)));
    assert_eq!(char_to_vk("hyper+e"), None);
    assert_eq!(char_to_vk("SHIFT+E"), Some((0x45, MOD_SHIFT)));
    assert_eq!(char_to_vk("Win+Backspace"), Some((0x08, MOD_META)));
    // only one modifier prefix is taken off
    assert_eq!(char_to_vk("ctrl+shift+a"), None);
    assert_eq!(char_to_vk(","), None);
}

#[test]
fn trigger_names_outside_the_prefix_form() {
    assert_eq!(char_to_vk("shift+"), None);
    assert_eq!(char_to_vk("e+shift"), None);
    assert_eq!(char_to_vk("xshift+e"), None);
    assert_eq!(char_to_vk("shift-e"), None);
    assert_eq!(char_to_vk(""), None);
    assert_eq!(char_to_vk("  Alt+ENTER\t"), Some((0x0D, MOD_ALT)));
}

#[test]
fn trigger_key_codes() {
    let cases: [(&str, u32); 37] = [
        ("comma", 0xBC),
        ("period", 0xBE),
        ("semicolon", 0xBA),
        ("slash", 0xBF),
        ("backslash", 0xDC),
        ("minus", 0xBD),
        ("equals", 0xBB),
        ("quote", 0xDE),
        ("bracketleft", 0xDB),
        ("bracketright", 0xDD),
        ("backspace", 0x08),
        ("tab", 0x09),
        ("enter", 0x0D),
        ("return", 0x0D),
        ("space", 0x20),
        ("delete", 0x2E),
        ("insert", 0x2D),
        ("home", 0x24),
        ("end", 0x23),
        ("pageup", 0x21),
        ("pagedown", 0x22),
        ("up", 0x26),
        ("down", 0x28),
        ("left", 0x25),
        ("right", 0x27),
        ("escape", 0x1B),
        ("esc", 0x1B),
        ("f1", 0x70),
        ("f2", 0x71),
        ("f3", 0x72),
        ("f4", 0x73),
        ("f5", 0x74),
        ("f6", 0x75),
        ("f7", 0x76),
        ("f8", 0x77),
        ("F11", 0x7A),
        ("F12", 0x7B),
    ];
    for (name, code) in cases {
        assert_eq!(char_to_vk(name), Some((code, MOD_NONE)), "{}", name);
    }
}

#[test]
fn lookup_prefers_exact_modifiers() {
    let t = table(&[("e", "Up"), ("shift+e", "Down")]);
    assert_eq!(t.lookup(0x45, MOD_NONE), Some(Action::KeyPress(Key::UpArrow)));
    assert_eq!(t.lookup(0x45, MOD_SHIFT), Some(Action::KeyPress(Key::DownArrow)));
    assert_eq!(t.lookup(0x45, MOD_CTRL), Some(Action::KeyPress(Key::UpArrow)));
    assert_eq!(t.lookup(0x46, MOD_NONE), None);
    let only_shift = table(&[("shift+e", "Down")]);
    assert_eq!(only_shift.lookup(0x45, MOD_NONE), None);
}

#[test]
fn bad_bindings_are_left_out() {
    let t = table(&[("nope", "Up"), ("e", "Nope"), ("f", "Right")]);
    assert_eq!(t.lookup(0x45, MOD_NONE), None);
    assert_eq!(t.lookup(0x46, MOD_NONE), Some(Action::KeyPress(Key::RightArrow)));
}

#[test]
fn later_binding_of_same_key_wins() {
    let t = table(&[("enter", "Up"), ("return", "Down")]);
    assert_eq!(t.lookup(0x0D, MOD_NONE), Some(Action::KeyPress(Key::DownArrow)));
}

#[test]
fn chord_strokes_release_in_reverse() {
    let a = Action::KeyChord(vec![Key::Control, Key::Shift, Key::End]);
    assert_eq!(
        a.key_strokes(),
        vec![
            (Key::Control, KeyDirection::Press),
            (Key::Shift, KeyDirection::Press),
            (Key::End, KeyDirection::Click),
            (Key::Shift, KeyDirection::Release),
            (Key::Control, KeyDirection::Release),
        ]
    );
}

#[test]
fn sequence_strokes_run_in_order() {
    let a = parse_action("Home, Shift+End, Delete").unwrap();
    assert_eq!(
        a.key_strokes(),
        vec![
            (Key::Home, KeyDirection::Click),
            (Key::Shift, KeyDirection::Press),
            (Key::End, KeyDirection::Click),
            (Key::Shift, KeyDirection::Release),
            (Key::Delete, KeyDirection::Click),
        ]
    );
}

#[test]
fn strokes_leave_no_key_held() {
    for text in ["Up", "Ctrl+Shift+Left", "Home, Shift+End, Delete", "Alt+Tab, Ctrl+Alt+Delete"] {
        let a = parse_action(text).unwrap();
        let mut held: Vec<Key> = Vec::new();
        for (k, d) in a.key_strokes() {
            match d {
                KeyDirection::Press => held.push(k),
                KeyDirection::Release => assert_eq!(held.pop(), Some(k)),
                KeyDirection::Click => {}
            }
        }
        assert!(held.is_empty(), "{}", text);
    }
}

#[test]
fn duplicate_copies_nested_actions() {
    let a = Action::Sequence(vec![
        Action::KeyPress(Key::Home),
        Action::Sequence(vec![Action::KeyChord(vec![Key::Alt, Key::F4])]),
    ]);
    assert_eq!(a.duplicate(), a);
}
