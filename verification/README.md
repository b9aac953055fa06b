# mycapslock

Caps Lock as a modifier key for Windows: a short tap toggles Caps Lock, holding
it turns the keys pressed meanwhile into configurable shortcuts (cursor
movement, selection, deletion, ...), read from `config.toml`.

- `src/` is the verified library:
  - `text` — trimming, splitting and prefix tests on characters;
  - `keys` — action key names, trigger key names and their virtual-key codes,
    modifier prefixes;
  - `actions` — action texts, the keyboard events that carry an action out,
    and the table from trigger keys to actions;
  - `state` — the Caps Lock state machine and the keyboard hook's decisions;
  - `config` — settings, bindings and the built-in configuration;
  - `tray` — the tray window's and the main loop's decisions, and the
    configuration report.
- `app/` is the Windows program around it: the low-level keyboard hook, the
  tray icon, start at login, reading the configuration file and sending key
  events.
- `tests/` holds the tests of the library.
