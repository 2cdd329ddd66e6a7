[package]
name = "steward_application"
version = "0.1.0"
edition = "2021"
publish = false

[dependencies]
sha2 = "=0.10.9"
hex = "=0.4.3"
chrono = "=0.4.45"
serde = { version = "=1.0.229", features = ["derive"] }
serde_json = "=1.0.154"
rusqlite = { version = "=0.31.0", features = ["bundled"] }
uuid = { version = "=1.29.0", features = ["v4"] }
mime_guess = "=2.0.5"
thiserror = "=1.0.69"
libc = "=0.2.191"
windows-sys = { version = "=0.61.2", features = ["Win32_Foundation", "Win32_Security", "Win32_Storage_FileSystem"] }

[dev-dependencies]
tempfile = "=3.27.0"
