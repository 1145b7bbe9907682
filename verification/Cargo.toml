[package]
name = "ldr_plc"
version = "0.1.0"
edition = "2021"
publish = false

[dependencies]
rand = "0.8"
serde = { version = "1", features = ["derive"] }
tokio = { version = "1", features = ["full"] }
tokio-modbus = { version = "0.16", default-features = false, features = ["tcp"] }
rusqlite = { version = "*", features = ["bundled"] }
tauri = { version = "2", default-features = false }
