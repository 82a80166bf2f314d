[package]
name = "strontium"
version = "0.9.1"
edition = "2021"
publish = false

[dependencies]
byteorder = "1"
serde = { version = "1", features = ["derive"] }
bincode = "1"
hex = "0.4"
colored = "2"
linefeed = "0.6"
