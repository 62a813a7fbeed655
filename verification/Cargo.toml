[package]
name = "pitchfork"
version = "0.1.0"
edition = "2021"
publish = false

[dependencies]
axum = { version = "0.8", default-features = false }
chrono = "0.4"
clap = { version = "4", features = ["derive"] }
clx = "*"
console = "*"
crossterm = "*"
fuzzy-matcher = "0.3"
indexmap = "2"
listeners = "*"
log = "0.4"
miette = "7"
once_cell = "1"
ratatui = "*"
shell-words = "1"
tokio = { version = "1", features = ["rt-multi-thread", "macros", "sync", "time"] }
xx = { version = "*", default-features = false }
