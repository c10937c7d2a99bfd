[package]
name = "fleet_syntax"
version = "0.1.0"
edition = "2021"
publish = false

[dependencies]
swc_common = "*"
swc_ecma_parser = "*"
serde = { version = "*", features = ["derive"] }
tokio = { version = "*", features = ["macros", "rt-multi-thread", "process", "fs"] }
tempfile = "*"
anyhow = "*"
futures-util = "*"
