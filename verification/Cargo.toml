[package]
name = "ratatui_testlib"
version = "0.1.0"
edition = "2021"
publish = false

[dependencies]
vtparse = "*"
regex = "*"
chrono = "*"
similar = "*"
anyhow = "*"
thiserror = "*"
portable-pty = "*"
libc = "*"
tokio = { version = "*", features = ["rt", "rt-multi-thread", "sync", "time", "macros"] }
