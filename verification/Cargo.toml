[package]
name = "alps_writer"
version = "0.1.0"
edition = "2021"
publish = false

[dependencies]
serde_yaml = "*"
serde_json = { version = "*", features = ["preserve_order"] }
clap = "*"
read_input = "*"
