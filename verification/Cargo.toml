[package]
name = "flowy_folder2"
version = "0.1.0"
edition = "2021"
publish = false

[dependencies]
tokio = { version = "1", features = ["sync", "rt"] }
tokio-stream = "0.1"
parking_lot = "0.12"
