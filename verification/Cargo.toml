[package]
name = "ssmt"
version = "0.1.0"
edition = "2021"
publish = false

[dependencies]
semver = "1"
serde = { version = "1", features = ["derive"] }
serde_json = "1"
reqwest = { version = "0.12", default-features = false }
zip = { version = "2", default-features = false, features = ["deflate"] }
tokio = { version = "1", features = ["process", "io-util", "sync", "rt", "rt-multi-thread", "time", "macros"] }
notify = "6"
windows-sys = { version = "0.59", features = ["Win32_Foundation", "Win32_System_Threading"] }
