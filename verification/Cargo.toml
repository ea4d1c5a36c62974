[package]
name = "journal_tail"
version = "0.1.0"
edition = "2021"
publish = false

[dependencies]
tokio = { version = "1", features = ["sync", "rt-multi-thread", "time", "macros", "io-std", "io-util"] }
chrono = "0.4"
systemd = "*"
