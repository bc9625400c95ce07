[package]
name = "reaction_jail"
version = "0.1.0"
edition = "2021"
publish = false

[dependencies]
poise = "0.6"
serde = { version = "1", features = ["derive"] }
serde_json = "1"
tokio = { version = "1", features = ["macros", "rt-multi-thread", "sync"] }
