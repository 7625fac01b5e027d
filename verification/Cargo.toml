[package]
name = "techfiesta_minter"
version = "0.1.0"
edition = "2021"
publish = false

[dependencies]
concordium-std = "*"
concordium-cis2 = "*"
concordium-rust-sdk = "*"
serde = { version = "1", features = ["derive"] }
thiserror = "*"
warp = "*"
tokio = { version = "1", features = ["sync"] }
