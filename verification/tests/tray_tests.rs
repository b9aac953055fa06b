use mycapslock::config::{Config, CursorMap, Mappings, Settings};
use mycapslock::tray::{
    config_report, decimal_chars, loop_step, missing_config_report, parse_error_report, read_error_report,
    tray_reaction, LoopStep, TrayReaction, WM_CHECK_CONFIG, WM_COMMAND, WM_CONTEXTMENU, WM_DESTROY, WM_OPEN_CONFIG,
    WM_QUIT, WM_RBUTTONUP, WM_TOGGLE_AUTOSTART, WM_TRAYICON,
};

#[test]
fn tray_icon_clicks() {
    assert_eq!(tray_reaction(WM_TRAYICON, 0, WM_RBUTTONUP as isize), TrayReaction::ShowMenu);
    assert_eq!(tray_reaction(WM_TRAYICON, 0, WM_CONTEXTMENU as isize), TrayReaction::ShowMenu);
    assert_eq!(tray_reaction(WM_TRAYICON, 0, 0x0201), TrayReaction::Handled);
}

#[test]
fn tray_menu_commands() {
    assert_eq!(tray_reaction(WM_COMMAND, 1001, 0), TrayReaction::Exit);
    assert_eq!(tray_reaction(WM_COMMAND, 1002, 0), TrayReaction::Post(WM_OPEN_CONFIG));
    assert_eq!(tray_reaction(WM_COMMAND, 1003, 0), TrayReaction::Post(WM_CHECK_CONFIG));
    assert_eq!(tray_reaction(WM_COMMAND, 1004, 0), TrayReaction::Post(WM_TOGGLE_AUTOSTART));
    // only the low word of wparam is the command
    assert_eq!(tray_reaction(WM_COMMAND, 0x0001_0000 + 1002, 0), TrayReaction::Post(WM_OPEN_CONFIG));
    assert_eq!(tray_reaction(WM_COMMAND, 7, 0), TrayReaction::Handled);
    assert_eq!(tray_reaction(WM_DESTROY, 0, 0), TrayReaction::Quit);
    assert_eq!(tray_reaction(0x000F, 0, 0), TrayReaction::Default);
}

#[test]
fn main_loop_steps() {
    assert_eq!(loop_step(WM_QUIT), LoopStep::Stop);
    assert_eq!(loop_step(WM_OPEN_CONFIG), LoopStep::OpenConfig);
    assert_eq!(loop_step(WM_CHECK_CONFIG), LoopStep::CheckConfig);
    assert_eq!(loop_step(WM_TOGGLE_AUTOSTART), LoopStep::ToggleAutostart);
    assert_eq!(loop_step(0x0200), LoopStep::Dispatch);
}

#[test]
fn decimal_numbers() {
    assert_eq!(decimal_chars(0).iter().collect::<String>(), "0");
    assert_eq!(decimal_chars(200).iter().collect::<String>(), "200");
    assert_eq!(decimal_chars(u64::MAX).iter().collect::<String>(), u64::MAX.to_string());
}

#[test]
fn report_of_a_good_config() {
    let mut cursor = CursorMap::new();
    cursor.insert("e".to_string(), "Up".to_string());
    cursor.insert("alt+enter".to_string(), "Home, Enter, Up".to_string());
    let cfg = Config { settings: Settings { hold_threshold_ms: 250, tap_to_toggle: false }, mappings: Mappings { cursor } };
    assert_eq!(
        config_report("C:\\tools\\config.toml", &cfg),
        "Config OK: C:\\tools\\config.toml\r\n\r\nSettings:\r\n  hold_threshold_ms = 250ms\r\n  tap_to_toggle = false\r\n\r\nMappings: 2 key bindings loaded\r\n  e -> Up\r\n  alt+enter -> Home, Enter, Up"
    );
}

#[test]
fn report_of_the_default_config_counts_bindings() {
    let r = config_report("config.toml", &Config::default_config());
    assert!(r.contains("Mappings: 20 key bindings loaded"));
    assert!(r.contains("  tap_to_toggle = true"));
    assert_eq!(r.split("\r\n").count(), 7 + 20);
}

#[test]
fn error_reports() {
    assert_eq!(missing_config_report("x.toml"), "Config file not found:\nx.toml\n\nRun with default.toml to create one.");
    assert_eq!(read_error_report("denied"), "Cannot read config:\ndenied");
    assert_eq!(parse_error_report("bad key"), "CONFIG PARSE ERROR:\nbad key");
}
