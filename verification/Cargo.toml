[package]
name = "wsl-proxy"
version = "0.1.0"
edition = "2021"
publish = false

[dependencies]
anyhow = "1"
bytes = "1"
clap = { version = "4", features = ["derive"] }
fork = "0.1"
fs2 = "0.4"
futures = "0.3"
rmp-serde = "1"
scopeguard = "1"
serde = { version = "1", features = ["derive"] }
tokio = { version = "1", features = ["full"] }
tokio-util = { version = "0.7", features = ["codec"] }
tracing = "0.1"
tracing-subscriber = "0.3"
windows = { version = "0.48", features = ["Win32_Foundation", "Win32_Security", "Win32_System_StationsAndDesktops", "Win32_System_SystemServices", "Win32_System_Threading"] }
