[package]
name = "rust-workspace-map"
version = "0.2.0"
edition = "2021"
publish = false

[dependencies]
toml = "=0.8.23"
syn = { version = "=2.0.119", features = ["full", "extra-traits"] }
proc-macro2 = { version = "=1.0.107", features = ["span-locations"] }
serde = { version = "=1.0.229", features = ["derive"] }
serde_json = "=1.0.154"
clap = { version = "=4.6.7", features = ["derive"] }
walkdir = "=2.5.0"
glob = "=0.3.4"
rayon = "=1.12.0"
anyhow = "=1.0.104"
thiserror = "=2.0.21"
