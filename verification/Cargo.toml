[package]
name = "motion_desk"
version = "0.1.0"
edition = "2021"
publish = false

[dependencies]
btleplug = "0.11"
futures = "0.3"
tokio = { version = "1", features = ["rt-multi-thread", "macros", "time", "sync"] }
uuid = "1"
serde = { version = "1", features = ["derive"] }
toml = "0.8"
clap = { version = "4", features = ["derive"] }
tao = "*"
tray-icon = "*"
wry = "*"
