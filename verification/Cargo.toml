[package]
name = "ciao_core"
version = "0.1.0"
edition = "2021"
publish = false

[dependencies]
clap = { version = "4", features = ["derive"] }
ctrlc = { version = "3", features = ["termination"] }
indicatif = "0.17"
libc = "0.2"
serde = { version = "1", features = ["derive"] }
serde_json = "1"
thiserror = "2"
toml = { version = "0.8", features = ["preserve_order"] }
