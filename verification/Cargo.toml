[package]
name = "sigcrack"
version = "0.1.0"
edition = "2021"
publish = false

[dependencies]
tiny-keccak = { version = "2.0", features = ["keccak"] }
hex = "0.4"
anyhow = "1"
clap = { version = "4", features = ["derive"] }
