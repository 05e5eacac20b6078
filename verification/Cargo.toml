[package]
name = "sinter"
version = "0.1.0"
edition = "2021"
publish = false

[dependencies]
anyhow = "1"
async-trait = "0.1"
clap = { version = "4", features = ["derive"] }
config = { version = "*", default-features = false, features = ["toml"] }
reqwest = { version = "*", default-features = false }
serde = { version = "1", features = ["derive"] }
serde_json = "1"
tokio = { version = "1", features = ["fs", "process", "rt-multi-thread", "macros", "sync"] }
toml_edit = "*"
walkdir = "2"
