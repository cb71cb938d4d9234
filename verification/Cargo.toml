[package]
name = "msym"
version = "0.1.0"
edition = "2021"
publish = false

[dependencies]
heck = "0.5"
anyhow = "1"
anstream = "0.6"
anstyle = "1"
anstyle-progress = "*"
clap = { version = "4", features = ["derive"] }
serde = { version = "1", features = ["derive"] }
toml = "0.8"
tokio = { version = "1", features = ["macros", "rt-multi-thread", "fs", "sync"] }
reqwest = { version = "0.12", default-features = false, features = ["rustls-tls"] }
strum = { version = "0.26", features = ["derive"] }
num_enum = "0.7"
