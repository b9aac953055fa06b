[package]
name = "mycapslock"
version = "0.1.0"
edition = "2021"
publish = false

[dependencies]
enigo = { version = "=0.3.0", default-features = false, features = ["x11rb"] }
log = "=0.4.35"
notify = "=6.1.1"
serde = { version = "=1.0.229", features = ["derive"] }
toml = "=0.8.23"
windows = { version = "=0.58.0", features = ["Win32_Foundation", "Win32_Security", "Win32_System_LibraryLoader", "Win32_System_Registry", "Win32_System_Threading", "Win32_UI_WindowsAndMessaging", "Win32_UI_Shell", "Win32_UI_Input_KeyboardAndMouse", "Win32_Graphics_Gdi"] }
