//! The tray window's decisions: how window messages are answered, what the
//! main loop does with a message, and the text of the configuration report.
use vstd::prelude::*;
use crate::config::{pair_views, Config};
use crate::text::{append_chars, append_str, chars_of, string_from_chars};

verus! {

/// The first message number free for applications.
pub const WM_APP: u32 = 0x8000;

/// The message that the tray icon sends to the window.
pub const WM_TRAYICON: u32 = WM_APP + 1;

/// Asks the main loop to open the configuration file.
pub const WM_OPEN_CONFIG: u32 = WM_APP + 2;

/// Asks the main loop to check the configuration file.
pub const WM_CHECK_CONFIG: u32 = WM_APP + 3;

/// Asks the main loop to switch start at login on or off.
pub const WM_TOGGLE_AUTOSTART: u32 = WM_APP + 4;

pub const ID_TRAY_EXIT: u16 = 1001;

pub const ID_TRAY_OPEN: u16 = 1002;

pub const ID_TRAY_CHECK: u16 = 1003;

pub const ID_TRAY_AUTOSTART: u16 = 1004;

pub const WM_DESTROY: u32 = 0x0002;

pub const WM_CLOSE: u32 = 0x0010;

pub const WM_QUIT: u32 = 0x0012;

pub const WM_CONTEXTMENU: u32 = 0x007B;

pub const WM_COMMAND: u32 = 0x0111;

pub const WM_RBUTTONUP: u32 = 0x0205;

/// How the tray window answers a message.
#[derive(Debug, Clone, Copy, PartialEq, Eq, Structural)]
pub enum TrayReaction {
    /// Show the tray menu.
    ShowMenu,
    /// Nothing more to do.
    Handled,
    /// Remove the tray icon and post `WM_CLOSE` to the window.
    Exit,
    /// Post this message to the window.
    Post(u32),
    /// End the message loop.
    Quit,
    /// Leave the message to the default window procedure.
    Default,
}

/// How the tray window answers message `msg` with parameters `wparam` and
/// `lparam`: a right click or context-menu request on the icon shows the
/// menu; a menu command exits or posts the request that goes with it; the
/// window's destruction ends the loop.
pub open spec fn reaction_to(msg: u32, wparam: usize, lparam: isize) -> TrayReaction {
    if msg == WM_TRAYICON {
        let l = lparam as u32;
        if l == WM_RBUTTONUP || l == WM_CONTEXTMENU {
            TrayReaction::ShowMenu
        } else {
            TrayReaction::Handled
        }
    } else if msg == WM_COMMAND {
        let cmd = (wparam & 0xFFFF) as u16;
        if cmd == ID_TRAY_EXIT {
            TrayReaction::Exit
        } else if cmd == ID_TRAY_OPEN {
            TrayReaction::Post(WM_OPEN_CONFIG)
        } else if cmd == ID_TRAY_CHECK {
            TrayReaction::Post(WM_CHECK_CONFIG)
        } else if cmd == ID_TRAY_AUTOSTART {
            TrayReaction::Post(WM_TOGGLE_AUTOSTART)
        } else {
            TrayReaction::Handled
        }
    } else if msg == WM_DESTROY {
        TrayReaction::Quit
    } else {
        TrayReaction::Default
    }
}

/// How the tray window answers a message.
pub fn tray_reaction(msg: u32, wparam: usize, lparam: isize) -> (r: TrayReaction)
    ensures
        r == reaction_to(msg, wparam, lparam),
{
    if msg == WM_TRAYICON {
        #[verifier::truncate]
        let l: u32 = lparam as u32;
        if l == WM_RBUTTONUP || l == WM_CONTEXTMENU {
            TrayReaction::ShowMenu
        } else {
            TrayReaction::Handled
        }
    } else if msg == WM_COMMAND {
        #[verifier::truncate]
        let cmd: u16 = (wparam & 0xFFFF) as u16;
        if cmd == ID_TRAY_EXIT {
            TrayReaction::Exit
        } else if cmd == ID_TRAY_OPEN {
            TrayReaction::Post(WM_OPEN_CONFIG)
        } else if cmd == ID_TRAY_CHECK {
            TrayReaction::Post(WM_CHECK_CONFIG)
        } else if cmd == ID_TRAY_AUTOSTART {
            TrayReaction::Post(WM_TOGGLE_AUTOSTART)
        } else {
            TrayReaction::Handled
        }
    } else if msg == WM_DESTROY {
        TrayReaction::Quit
    } else {
        TrayReaction::Default
    }
}

/// What the main loop does with a message taken from the queue, before the
/// message is dispatched.
#[derive(Debug, Clone, Copy, PartialEq, Eq, Structural)]
pub enum LoopStep {
    /// Remove the icon, destroy the window and leave the loop.
    Stop,
    /// Open the configuration file, then dispatch.
    OpenConfig,
    /// Check the configuration file and show the report, then dispatch.
    CheckConfig,
    /// Switch start at login, then dispatch.
    ToggleAutostart,
    /// Only dispatch.
    Dispatch,
}

/// What the main loop does with a message.
pub fn loop_step(message: u32) -> (r: LoopStep)
    ensures
        r == (if message == WM_QUIT {
            LoopStep::Stop
        } else if message == WM_OPEN_CONFIG {
            LoopStep::OpenConfig
        } else if message == WM_CHECK_CONFIG {
            LoopStep::CheckConfig
        } else if message == WM_TOGGLE_AUTOSTART {
            LoopStep::ToggleAutostart
        } else {
            LoopStep::Dispatch
        }),
{
    if message == WM_QUIT {
        LoopStep::Stop
    } else if message == WM_OPEN_CONFIG {
        LoopStep::OpenConfig
    } else if message == WM_CHECK_CONFIG {
        LoopStep::CheckConfig
    } else if message == WM_TOGGLE_AUTOSTART {
        LoopStep::ToggleAutostart
    } else {
        LoopStep::Dispatch
    }
}


/// The character of a decimal digit.
pub open spec fn digit_char(d: nat) -> char {
    if d == 0 {
        '0'
    } else if d == 1 {
        '1'
    } else if d == 2 {
        '2'
    } else if d == 3 {
        '3'
    } else if d == 4 {
        '4'
    } else if d == 5 {
        '5'
    } else if d == 6 {
        '6'
    } else if d == 7 {
        '7'
    } else if d == 8 {
        '8'
    } else {
        '9'
    }
}

/// The decimal notation of `n`, without leading zeros.
pub open spec fn decimal(n: nat) -> Seq<char>
    decreases n,
{
    if n < 10 {
        seq![digit_char(n)]
    } else {
        decimal(n / 10).push(digit_char(n % 10))
    }
}

fn digit(d: u64) -> (r: char)
    requires
        d < 10,
    ensures
        r == digit_char(d as nat),
{
    if d == 0 {
        '0'
    } else if d == 1 {
        '1'
    } else if d == 2 {
        '2'
    } else if d == 3 {
        '3'
    } else if d == 4 {
        '4'
    } else if d == 5 {
        '5'
    } else if d == 6 {
        '6'
    } else if d == 7 {
        '7'
    } else if d == 8 {
        '8'
    } else {
        '9'
    }
}

/// The decimal notation of `n`.
pub fn decimal_chars(n: u64) -> (r: Vec<char>)
    ensures
        r@ == decimal(n as nat),
    decreases n,
{
    if n < 10 {
        let mut v: Vec<char> = Vec::new();
        v.push(digit(n));
        assert(v@ =~= seq![digit_char(n as nat)]);
        v
    } else {
        let mut v = decimal_chars(n / 10);
        v.push(digit(n % 10));
        v
    }
}

/// The lines of `lines` joined by `sep`.
pub open spec fn join(lines: Seq<Seq<char>>, sep: Seq<char>) -> Seq<char>
    decreases lines.len(),
{
    if lines.len() == 0 {
        Seq::<char>::empty()
    } else if lines.len() == 1 {
        lines[0]
    } else {
        join(lines.drop_last(), sep) + sep + lines.last()
    }
}

/// The lines of the report on a configuration that parsed: the file, the
/// settings, the number of bindings and each binding.
pub open spec fn report_lines(
    path: Seq<char>,
    hold_threshold_ms: u64,
    tap_to_toggle: bool,
    bindings: Seq<(Seq<char>, Seq<char>)>,
) -> Seq<Seq<char>> {
    seq![
        "Config OK: "@ + path,
        Seq::<char>::empty(),
        "Settings:"@,
        "  hold_threshold_ms = "@ + decimal(hold_threshold_ms as nat) + "ms"@,
        "  tap_to_toggle = "@ + (if tap_to_toggle { "true"@ } else { "false"@ }),
        Seq::<char>::empty(),
        "Mappings: "@ + decimal(bindings.len()) + " key bindings loaded"@,
    ] + bindings.map_values(|b: (Seq<char>, Seq<char>)| "  "@ + b.0 + " -> "@ + b.1)
}

fn push_line(out: &mut Vec<char>, line: &Vec<char>, first: bool, ghost_lines: Ghost<Seq<Seq<char>>>)
    requires
        ghost_lines@.len() > 0 ==> old(out)@ == join(ghost_lines@, "\r\n"@),
        ghost_lines@.len() == 0 <==> first,
        first ==> old(out)@ == Seq::<char>::empty(),
    ensures
        final(out)@ == join(ghost_lines@.push(line@), "\r\n"@),
{
    let ghost l = ghost_lines@.push(line@);
    assert(l.drop_last() =~= ghost_lines@);
    if first {
        append_chars(out, line);
        assert(final(out)@ =~= line@);
    } else {
        append_str(out, "\r\n");
        append_chars(out, line);
    }
}

/// The report shown when no configuration file is found at `path`.
pub fn missing_config_report(path: &str) -> (r: String)
    ensures
        r@ == "Config file not found:\n"@ + path@ + "\n\nRun with default.toml to create one."@,
{
    let mut v = chars_of("Config file not found:\n");
    append_str(&mut v, path);
    append_str(&mut v, "\n\nRun with default.toml to create one.");
    string_from_chars(&v)
}

/// The report shown when the configuration file cannot be read; `error`
/// describes the failure.
pub fn read_error_report(error: &str) -> (r: String)
    ensures
        r@ == "Cannot read config:\n"@ + error@,
{
    let mut v = chars_of("Cannot read config:\n");
    append_str(&mut v, error);
    string_from_chars(&v)
}

/// The report shown when the configuration file does not parse; `error`
/// describes the failure.
pub fn parse_error_report(error: &str) -> (r: String)
    ensures
        r@ == "CONFIG PARSE ERROR:\n"@ + error@,
{
    let mut v = chars_of("CONFIG PARSE ERROR:\n");
    append_str(&mut v, error);
    string_from_chars(&v)
}

/// The report shown for a configuration file at `path` that parsed into
/// `cfg`: the lines of `report_lines` joined by CR LF.
pub fn config_report(path: &str, cfg: &Config) -> (r: String)
    ensures
        r@ == join(
            report_lines(path@, cfg.settings.hold_threshold_ms, cfg.settings.tap_to_toggle, cfg.mappings.cursor@),
            "\r\n"@,
        ),
{
    let entries = cfg.mappings.cursor.entries();
    let ghost lines = report_lines(path@, cfg.settings.hold_threshold_ms, cfg.settings.tap_to_toggle, cfg.mappings.cursor@);
    let mut fixed: Vec<Vec<char>> = Vec::new();
    let mut l0 = chars_of("Config OK: ");
    append_str(&mut l0, path);
    fixed.push(l0);
    fixed.push(Vec::new());
    fixed.push(chars_of("Settings:"));
    let mut l3 = chars_of("  hold_threshold_ms = ");
    let d = decimal_chars(cfg.settings.hold_threshold_ms);
    append_chars(&mut l3, &d);
    append_str(&mut l3, "ms");
    fixed.push(l3);
    let mut l4 = chars_of("  tap_to_toggle = ");
    if cfg.settings.tap_to_toggle {
        append_str(&mut l4, "true");
    } else {
        append_str(&mut l4, "false");
    }
    fixed.push(l4);
    fixed.push(Vec::new());
    let mut l6 = chars_of("Mappings: ");
    let n = decimal_chars(entries.len() as u64);
    append_chars(&mut l6, &n);
    append_str(&mut l6, " key bindings loaded");
    fixed.push(l6);
    let ghost bindings = pair_views(entries@);
    assert(fixed@.len() == 7);
    let mut out: Vec<char> = Vec::new();
    let mut i: usize = 0;
    while i < fixed.len()
        invariant
            i <= fixed@.len() == 7,
            lines.len() == 7 + bindings.len(),
            forall|j: int| 0 <= j < 7 ==> (#[trigger] fixed@[j])@ == lines[j],
            i > 0 ==> out@ == join(lines.take(i as int), "\r\n"@),
            i == 0 ==> out@ == Seq::<char>::empty(),
        decreases fixed@.len() - i,
    {
        assert(lines.take(i as int).push(fixed@[i as int]@) =~= lines.take(i as int + 1));
        push_line(&mut out, &fixed[i], i == 0, Ghost(lines.take(i as int)));
        i = i + 1;
    }
    let mut k: usize = 0;
    while k < entries.len()
        invariant
            k <= entries@.len() == bindings.len(),
            bindings == pair_views(entries@),
            lines.len() == 7 + bindings.len(),
            forall|j: int| 0 <= j < bindings.len() ==> #[trigger] lines[7 + j] == "  "@ + bindings[j].0 + " -> "@ + bindings[j].1,
            out@ == join(lines.take(7 + k), "\r\n"@),
        decreases entries@.len() - k,
    {
        let mut line = chars_of("  ");
        append_str(&mut line, entries[k].0.as_str());
        append_str(&mut line, " -> ");
        append_str(&mut line, entries[k].1.as_str());
        assert(line@ == lines[7 + k]);
        assert(lines.take(7 + k).push(line@) =~= lines.take(7 + k + 1));
        push_line(&mut out, &line, false, Ghost(lines.take(7 + k)));
        k = k + 1;
    }
    assert(lines.take(7 + bindings.len() as int) =~= lines);
    string_from_chars(&out)
}

} // verus!
