[package]
name = "order_propagation"
version = "0.1.0"
edition = "2021"
publish = false

[dependencies]
bincode = "2"
borsh = "1"
config = { version = "0.15", default-features = false, features = ["toml"] }
plotters = "0.3"
rand = "0.9"
serde = { version = "1", features = ["derive"] }
tokio = { version = "1", features = ["macros", "rt-multi-thread", "sync", "time"] }
