[package]
name = "rusty_p4"
version = "0.1.0"
edition = "2021"
publish = false

[dependencies]
bytes = "1"
hex = "0.4"
serde = { version = "1", features = ["derive"] }
serde_json = "1"
ctrlc = "3"
