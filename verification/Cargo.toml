[package]
name = "reprozip"
version = "0.1.0"
edition = "2021"
publish = false

[dependencies]
clap = "2"
nix = { version = "*", features = ["process", "ptrace", "signal"] }
slog = "2"
slog-async = "2"
slog-stdlog = "*"
slog-term = "2"
