[package]
name = "apple2_core"
version = "0.1.0"
edition = "2021"
publish = false

[dependencies]
flate2 = "1.1"
minifb = "0.27"
arboard = { version = "3", default-features = false }
serde = { version = "1", features = ["derive"] }
serde_json = "1"
directories = "5"
