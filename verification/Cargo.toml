[package]
name = "metrodraw"
version = "0.1.0"
edition = "2021"
publish = false

[dependencies]
petgraph = { version = "0.6", default-features = false }
iced = { version = "0.4", features = ["canvas", "pure"] }
