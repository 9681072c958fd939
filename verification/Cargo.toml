[package]
name = "ps2-filetypes"
version = "0.1.0"
edition = "2021"
publish = false

[dependencies]
byteorder = "1"
chrono = "0.4"
encoding_rs = "0.8"
clap = { version = "4", features = ["derive"] }
colored = "2"
toml = "0.8"
serde = { version = "1", features = ["derive"] }
