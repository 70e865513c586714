[package]
name = "clparse"
version = "0.1.0"
edition = "2021"
publish = false

[dependencies]
anyhow = "1"
chrono = { version = "0.4", default-features = false, features = ["std"] }
clap = "2"
err-derive = "*"
indexmap = "*"
pulldown-cmark = { version = "0.5", default-features = false }
serde = { version = "1", features = ["derive"] }
serde_json = "1"
serde_yaml = "*"
textwrap = "*"
versions = "*"
