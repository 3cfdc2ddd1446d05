[package]
name = "valo_tracker"
version = "0.1.0"
edition = "2021"
publish = false

[dependencies]
anyhow = "1"
clap = { version = "4", features = ["derive"] }
reqwest = { version = "0.11", default-features = false, features = ["json", "rustls-tls"] }
serde = "1"
serde_derive = "1"
serenity = "0.11"
tokio = { version = "1", features = ["macros", "rt-multi-thread", "time", "fs", "io-util"] }
