[package]
name = "acpr_haptics"
version = "0.1.0"
edition = "2021"
publish = false

[dependencies]
buttplug = { version = "=6.3.0", default-features = false, features = ["client", "server", "serialize-json", "tokio-runtime", "xinput-manager"] }
detour = "0.8"
futures = "=0.3.34"
log = "=0.4.34"
once_cell = "=1.21.4"
serde = { version = "=1.0.229", features = ["derive"] }
simplelog = "=0.12.2"
tokio = { version = "=1.54.1", features = ["rt", "time", "sync", "macros"] }
toml = "=0.5.11"
windows = { version = "=0.43.0", features = ["Win32_Foundation", "Win32_System_LibraryLoader", "Win32_System_Console"] }
