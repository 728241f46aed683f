[package]
name = "macprot2fans"
version = "0.1.0"
edition = "2021"
publish = false

[dependencies]
glob = "0.3"
libc = "0.2"
serde = { version = "1", features = ["derive"] }
signal-hook = "0.3"
toml = "0.8"
