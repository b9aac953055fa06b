use mycapslock::actions::{Action, MappingTable};
use mycapslock::config::CursorMap;
use mycapslock::keys::Key;
use mycapslock::state::{decide_release, CapsLockState, HookContext, HookEvent, State};
use std::time::{Duration, Instant};

// caps=0 means Caps Lock off in the system, caps=1 means on
const OFF: i32 = 0;
const ON: i32 = 1;

fn wait_ms(ms: u64) {
    let start = Instant::now();
    while start.elapsed() < Duration::from_millis(ms) {}
}

fn mapping_of(pairs: &[(&str, &str)]) -> MappingTable {
    let mut cursor = CursorMap::new();
    for (name, action) in pairs {
        cursor.insert(name.to_string(), action.to_string());
    }
    MappingTable::from_cursor_mappings(&cursor)
}

#[test]
fn test_capslock_tap_to_toggle_enabled_driver_no_toggle() {
    let mut st = CapsLockState::new();
    assert_eq!(st.on_capslock_down(OFF), HookEvent::Block);
    wait_ms(50);
    // Caps Lock still off: the driver did not toggle, so we must
    assert_eq!(st.on_capslock_up(200, true, OFF), HookEvent::ToggleCapsLock);
}

#[test]
fn test_capslock_tap_to_toggle_enabled_driver_did_toggle() {
    let mut st = CapsLockState::new();
    assert_eq!(st.on_capslock_down(OFF), HookEvent::Block);
    wait_ms(50);
    assert_eq!(st.on_capslock_up(200, true, ON), HookEvent::Block);
}

#[test]
fn test_capslock_tap_to_toggle_disabled() {
    let mut st = CapsLockState::new();
    assert_eq!(st.on_capslock_down(OFF), HookEvent::Block);
    wait_ms(50);
    assert_eq!(st.on_capslock_up(200, false, OFF), HookEvent::Block);
}

#[test]
fn test_capslock_tap_to_toggle_disabled_driver_toggled() {
    let mut st = CapsLockState::new();
    assert_eq!(st.on_capslock_down(OFF), HookEvent::Block);
    wait_ms(50);
    // tap_to_toggle off and the driver toggled: correct it back
    assert_eq!(st.on_capslock_up(200, false, ON), HookEvent::ToggleCapsLock);
}

#[test]
fn test_capslock_long_hold_no_toggle() {
    let mut st = CapsLockState::new();
    assert_eq!(st.on_capslock_down(OFF), HookEvent::Block);
    wait_ms(250);
    // a hold longer than 200 ms without another key: no toggle
    assert_eq!(st.on_capslock_up(200, true, OFF), HookEvent::Block);
}

#[test]
fn test_capslock_long_hold_driver_toggled() {
    let mut st = CapsLockState::new();
    assert_eq!(st.on_capslock_down(OFF), HookEvent::Block);
    wait_ms(250);
    assert_eq!(st.on_capslock_up(200, true, ON), HookEvent::ToggleCapsLock);
}

#[test]
fn test_capslock_held_with_other_key_mapped() {
    let mapping = mapping_of(&[("e", "Up")]);
    let mut ctx = HookContext::new(mapping, 200, true);

    // Caps Lock down: blocked
    assert_eq!(ctx.process_key(0x14, true, OFF, 0), HookEvent::Block);
    // E: remapped
    assert_eq!(ctx.process_key(0x45, true, OFF, 0), HookEvent::Action(Action::KeyPress(Key::UpArrow)));
    // Caps Lock up: a modifier use, the driver did not toggle: no toggle
    assert_eq!(ctx.process_key(0x14, false, OFF, 0), HookEvent::Block);
}

#[test]
fn test_capslock_modifier_driver_toggled() {
    let mapping = mapping_of(&[("e", "Up")]);
    let mut ctx = HookContext::new(mapping, 200, true);

    ctx.process_key(0x14, true, OFF, 0);
    ctx.process_key(0x45, true, ON, 0);
    // Caps Lock up: a modifier use and the driver toggled: correct it
    assert_eq!(ctx.process_key(0x14, false, ON, 0), HookEvent::ToggleCapsLock);
}

#[test]
fn test_capslock_held_with_unmapped_key() {
    let mapping = mapping_of(&[]);
    let mut ctx = HookContext::new(mapping, 200, true);

    ctx.process_key(0x14, true, OFF, 0);
    let event = ctx.process_key(0x5A, true, OFF, 0);
    assert_eq!(event, HookEvent::Block);
}

#[test]
fn test_normal_key_passes_through() {
    let mapping = mapping_of(&[]);
    let mut ctx = HookContext::new(mapping, 200, true);

    assert_eq!(ctx.process_key(0x41, true, OFF, 0), HookEvent::PassThrough);
    assert_eq!(ctx.process_key(0x41, false, OFF, 0), HookEvent::PassThrough);
}

#[test]
fn test_state_transitions() {
    let mut st = CapsLockState::new();

    st.on_capslock_down(OFF);
    assert_eq!(st.on_other_key_down(), Some(State::Held));
    assert_eq!(st.on_other_key_down(), Some(State::Held));
    // a modifier use without a driver toggle: blocked
    assert_eq!(st.on_capslock_up(200, true, OFF), HookEvent::Block);
}

#[test]
fn test_normal_key_when_idle_does_nothing() {
    let mut st = CapsLockState::new();
    assert_eq!(st.on_other_key_down(), None);
}

#[test]
fn test_backspace_as_trigger_key() {
    let mapping = mapping_of(&[("backspace", "Home, Shift+End, Delete")]);
    assert!(mapping.lookup(0x08, 0).is_some(), "VK_BACK (0x08) mapping should exist");
}

#[test]
fn phases_follow_the_press() {
    let mut st = CapsLockState::new();
    assert_eq!(st.phase(), State::Idle);
    st.on_capslock_down(ON);
    assert_eq!(st.phase(), State::Pressed);
    st.on_other_key_down();
    assert_eq!(st.phase(), State::Held);
    st.on_capslock_up(200, true, ON);
    assert_eq!(st.phase(), State::Idle);
}

#[test]
fn release_up_without_down_counts_as_tap() {
    let mut st = CapsLockState::new();
    assert_eq!(st.on_capslock_up(200, true, OFF), HookEvent::ToggleCapsLock);
}

#[test]
fn release_decisions_for_every_case() {
    // modifier used
    assert_eq!(decide_release(true, 10, 200, true, false), HookEvent::Block);
    assert_eq!(decide_release(true, 10, 200, true, true), HookEvent::ToggleCapsLock);
    // tap with tap-to-toggle
    assert_eq!(decide_release(false, 199, 200, true, false), HookEvent::ToggleCapsLock);
    assert_eq!(decide_release(false, 199, 200, true, true), HookEvent::Block);
    // tap without tap-to-toggle
    assert_eq!(decide_release(false, 10, 200, false, false), HookEvent::Block);
    assert_eq!(decide_release(false, 10, 200, false, true), HookEvent::ToggleCapsLock);
    // long hold: the threshold itself is a hold
    assert_eq!(decide_release(false, 200, 200, true, false), HookEvent::Block);
    assert_eq!(decide_release(false, 200, 200, true, true), HookEvent::ToggleCapsLock);
}

#[test]
fn release_restores_intended_caps_state() {
    // the state Caps Lock ends in equals the state before the press, flipped
    // only for a tap with tap-to-toggle on, whatever the driver did
    for pre in [0, 1] {
        for driver_flip in [false, true] {
            for (modifier, duration, tap) in [(false, 10, true), (true, 10, true), (false, 500, true), (false, 10, false)] {
                let now = if driver_flip { 1 - pre } else { pre };
                let answer = decide_release(modifier, duration, 200, tap, now != pre);
                let after = if answer == HookEvent::ToggleCapsLock { 1 - now } else { now };
                let wanted = !modifier && duration < 200 && tap;
                let expected = if wanted { 1 - pre } else { pre };
                assert_eq!(after, expected);
            }
        }
    }
}

#[test]
fn modifiers_are_tracked_and_cleared() {
    let mapping = mapping_of(&[("e", "Up"), ("alt+e", "Shift+Up")]);
    let mut ctx = HookContext::new(mapping, 200, true);
    ctx.process_key(0xA4, true, OFF, 0);
    assert_eq!(ctx.modifiers, 4);
    ctx.process_key(0x10, true, OFF, 0);
    assert_eq!(ctx.modifiers, 5);
    ctx.process_key(0xA4, false, OFF, 0);
    assert_eq!(ctx.modifiers, 1);
    ctx.process_key(0x10, false, OFF, 0);
    assert_eq!(ctx.modifiers, 0);
    ctx.process_key(0x45, true, OFF, 0);
    assert_eq!(ctx.modifiers, 0);
}

#[test]
fn left_and_right_shift_and_ctrl_are_tracked() {
    let mapping = mapping_of(&[("e", "Up"), ("shift+e", "Shift+Up"), ("ctrl+e", "Ctrl+Up")]);
    let mut ctx = HookContext::new(mapping, 200, true);
    ctx.process_key(0xA0, true, OFF, 0);
    assert_eq!(ctx.modifiers, 1);
    ctx.process_key(0xA3, true, OFF, 0);
    assert_eq!(ctx.modifiers, 3);
    ctx.process_key(0xA0, false, OFF, 0);
    assert_eq!(ctx.modifiers, 2);
    ctx.process_key(0x14, true, OFF, 0);
    assert_eq!(
        ctx.process_key(0x45, true, OFF, 0),
        HookEvent::Action(Action::KeyChord(vec![Key::Control, Key::UpArrow]))
    );
    ctx.process_key(0xA3, false, OFF, 0);
    ctx.process_key(0xA1, true, OFF, 0);
    assert_eq!(
        ctx.process_key(0x45, true, OFF, 0),
        HookEvent::Action(Action::KeyChord(vec![Key::Shift, Key::UpArrow]))
    );
    ctx.process_key(0xA1, false, OFF, 0);
    ctx.process_key(0xA2, true, OFF, 0);
    assert_eq!(ctx.modifiers, 2);
    ctx.process_key(0xA2, false, OFF, 0);
    assert_eq!(ctx.modifiers, 0);
}

#[test]
fn held_modifier_selects_its_binding() {
    let mapping = mapping_of(&[("e", "Up"), ("alt+e", "Shift+Up")]);
    let mut ctx = HookContext::new(mapping, 200, true);
    ctx.process_key(0x14, true, OFF, 0);
    ctx.process_key(0x12, true, OFF, 0);
    assert_eq!(
        ctx.process_key(0x45, true, OFF, 0),
        HookEvent::Action(Action::KeyChord(vec![Key::Shift, Key::UpArrow]))
    );
    ctx.process_key(0x12, false, OFF, 0);
    assert_eq!(ctx.process_key(0x45, true, OFF, 0), HookEvent::Action(Action::KeyPress(Key::UpArrow)));
    // with Ctrl held there is no ctrl+e binding: the plain one applies
    ctx.process_key(0x11, true, OFF, 0);
    assert_eq!(ctx.process_key(0x45, true, OFF, 0), HookEvent::Action(Action::KeyPress(Key::UpArrow)));
}

#[test]
fn key_release_while_held_passes_through() {
    let mapping = mapping_of(&[("e", "Up")]);
    let mut ctx = HookContext::new(mapping, 200, true);
    ctx.process_key(0x14, true, OFF, 0);
    assert_eq!(ctx.process_key(0x45, false, OFF, 0), HookEvent::PassThrough);
}

#[test]
fn settings_update_replaces_bindings() {
    let mut ctx = HookContext::new(mapping_of(&[("e", "Up")]), 200, true);
    ctx.update_settings(300, false, mapping_of(&[("e", "Down")]));
    assert_eq!(ctx.hold_threshold_ms, 300);
    assert!(!ctx.tap_to_toggle);
    ctx.process_key(0x14, true, OFF, 0);
    assert_eq!(ctx.process_key(0x45, true, OFF, 0), HookEvent::Action(Action::KeyPress(Key::DownArrow)));
    // tap-to-toggle now off: a Caps Lock release never flips on its own
    assert_eq!(ctx.process_key(0x14, false, OFF, 0), HookEvent::Block);
}

#[test]
fn events_forwarded_to_main_thread() {
    assert!(HookEvent::ToggleCapsLock.is_forwarded());
    assert!(HookEvent::Action(Action::KeyPress(Key::Home)).is_forwarded());
    assert!(!HookEvent::Block.is_forwarded());
    assert!(!HookEvent::PassThrough.is_forwarded());
    assert_eq!(HookEvent::ToggleCapsLock.action_to_run(), Some(Action::KeyPress(Key::CapsLock)));
    assert_eq!(HookEvent::Action(Action::KeyPress(Key::Home)).action_to_run(), Some(Action::KeyPress(Key::Home)));
    assert_eq!(HookEvent::Block.action_to_run(), None);
}
