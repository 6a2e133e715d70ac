[package]
name = "codex_policy"
version = "0.1.0"
edition = "2021"
publish = false

[dependencies]
zeroize = "=1.9.1"
serde = { version = "=1.0.229", features = ["derive"] }
serde_json = "=1.0.154"
uuid = { version = "=1.29.0", features = ["v4"] }
libc = "=0.2.191"
anyhow = "=1.0.104"
shlex = "1"
textwrap = "0.16"
unicode-width = "0.2"
