[package]
name = "typst_math"
version = "0.1.0"
edition = "2021"
publish = false

[dependencies]
euclid = "0.22"
logos = "0.13"
serde = { version = "1.0", features = ["derive"] }
thiserror = "1.0"
