[package]
name = "file_info"
version = "0.1.0"
edition = "2021"
publish = false

[dependencies]
authenticode = "=0.6.0"
cms = "=0.2.3"
der = "=0.7.10"
goblin = "=0.10.7"
hex = "=0.4.3"
rust-crypto = "=0.2.36"
serde = { version = "=1.0.229", features = ["derive"] }
