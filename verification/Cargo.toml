[package]
name = "fps_enhancer"
version = "0.1.0"
edition = "2021"
publish = false

[dependencies]
encoding = "*"
serde = { version = "*", features = ["derive"] }
sysinfo = "*"
tokio = { version = "*", features = ["rt-multi-thread", "macros", "time", "signal", "sync"] }
toml = "*"
