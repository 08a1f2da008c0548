[package]
name = "icedshell"
version = "0.1.0"
edition = "2021"
publish = false

[dependencies]
serde_json = "1"
niri-ipc = "*"
freedesktop-icons = "*"
tokio = { version = "1", default-features = false, features = ["net", "io-util", "rt", "time", "macros", "sync"] }
zbus = { version = "*", default-features = false, features = ["tokio"] }
time = "*"
walkdir = "2"
anyhow = "1"
