[package]
name = "kokoro-tts"
version = "0.1.0"
edition = "2021"
publish = false

[dependencies]
misaki-rs = { version = "=0.6.0", default-features = false }
zip = { version = "=9.0.5", default-features = false, features = ["deflate"] }
hound = "=3.5.1"
ort = { version = "=2.0.0-rc.15", default-features = false, features = ["load-dynamic"] }
log = "=0.4.34"
thiserror = "=2.0.21"
serde = { version = "=1.0.229", features = ["derive"] }
serde_json = "=1.0.154"
tokio = { version = "=1.54.1", features = ["full"] }
reqwest = { version = "=0.12.28", default-features = false, features = ["json", "stream"] }
rusqlite = { version = "=0.40.2", features = ["bundled"] }
futures-util = "=0.3.34"
dirs = "=7.0.0"
