[package]
name = "mdbook_include_rs"
version = "0.1.0"
edition = "2021"
publish = false

[dependencies]
syn = { version = "=2.0.119", features = ["full"] }
proc-macro2 = { version = "=1.0.107", features = ["span-locations"] }
mdbook = "=0.4.52"
clap = { version = "=4.6.7", features = ["derive"] }
serde_json = "*"
anyhow = "*"
toml = "=0.5.11"
