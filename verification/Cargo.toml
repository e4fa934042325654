[package]
name = "alhc"
version = "0.1.0"
edition = "2021"
publish = false

[dependencies]
futures-lite = "*"
futures = "*"
pin-project-lite = "*"
once_cell = "*"
serde = "*"
serde_json = "*"
windows-sys = { version = "*", features = ["Win32_Foundation", "Win32_Networking_WinHttp"] }
core-foundation = "*"
isahc = "*"
