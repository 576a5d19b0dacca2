[package]
name = "heisensim"
version = "0.15.0"
edition = "2021"
publish = false

[dependencies]
rand = "0.9"
goblin = "*"
uuid = { version = "1", features = ["v4"] }
serde = { version = "1", features = ["derive"] }
serde_json = "1"
clap = { version = "4", features = ["derive"] }
anyhow = "1"
toml = "*"
chrono = "0.4"
xxhash-rust = { version = "0.8", features = ["xxh64"] }
nix = { version = "*", features = ["ptrace", "process", "signal"] }
libc = "0.2"
