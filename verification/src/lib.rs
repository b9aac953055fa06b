//! Caps Lock as a modifier key: short taps toggle Caps Lock, holds turn the
//! keys pressed meanwhile into configurable shortcuts.
pub mod text;
pub mod keys;
pub mod codes;
pub mod actions;
pub mod config;
pub mod state;
pub mod tray;
