[package]
name = "uimage"
version = "0.1.0"
edition = "2021"
publish = false

[dependencies]
bytes = "1"
uuid = { version = "1", features = ["v4"] }
warp = "0.3"
tokio = { version = "1", features = ["macros", "rt-multi-thread", "fs"] }
futures = "0.3"
serde = { version = "1", features = ["derive"] }
