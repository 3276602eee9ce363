[package]
name = "strace_parse"
version = "0.1.0"
edition = "2021"
publish = false

[dependencies]
anyhow = "1"
byteorder = "1"
clap = { version = "4", features = ["derive"] }
easy_collections = "*"
hex = "0.4"
nix = { version = "*", features = ["ptrace", "process", "signal"] }
owo-colors = "*"
serde = { version = "1", features = ["derive"] }
serde_json = "1"
termcolor = "1"
which = "*"
