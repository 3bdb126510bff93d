[package]
name = "auto-audio-recorder"
version = "0.1.0"
edition = "2021"
publish = false

[dependencies]
anyhow = "=1.0.104"
chrono = "=0.4.45"
clap = { version = "=4.6.7", features = ["derive"] }
cpal = "=0.18.2"
crossbeam-channel = "=0.5.17"
dirs = "=7.0.0"
hound = "=3.5.1"
mp3lame-encoder = "=0.2.5"
parking_lot = "=0.12.5"
rubato = "=5.0.1"
serde = { version = "=1.0.229", features = ["derive"] }
serde_json = "=1.0.154"
tokio = { version = "=1.54.1", features = ["full"] }
toml = "=1.1.8"
tracing = "=0.1.44"
tracing-subscriber = "=0.3.23"
windows = { version = "=0.62.2", features = ["Win32_Foundation", "Win32_Media_Audio", "Win32_Security", "Win32_System_Com", "Win32_System_Diagnostics_ToolHelp", "Win32_System_Threading"] }
