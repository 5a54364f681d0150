[package]
name = "eelco"
version = "0.1.0"
edition = "2021"
publish = false

[dependencies]
anyhow = "1"
camino = "1"
clap = { version = "4", features = ["derive"] }
comrak = { version = "*", default-features = false }
futures = "0.3"
glob = "0.3"
nix = { version = "*", features = ["fs", "process"] }
strip-ansi-escapes = "*"
tokio = { version = "1", features = ["full"] }
