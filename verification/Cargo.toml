[package]
name = "vswhere"
version = "0.1.0"
edition = "2021"
publish = false

[dependencies]
serde_json = "1"
winapi = { version = "0.3", features = ["combaseapi", "knownfolders", "shlobj", "shtypes", "winerror", "winnt"] }
