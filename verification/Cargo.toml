[package]
name = "httptunnel"
version = "0.1.0"
edition = "2021"
publish = false

[dependencies]
halfbrown = "*"
uuid = { version = "*", features = ["v4"] }
actix-web = { version = "*", default-features = false, features = ["macros"] }
reqwest = { version = "*", default-features = false, features = ["stream"] }
tokio = { version = "*", features = ["full"] }
tokio-util = { version = "*", features = ["codec", "compat", "rt", "io"] }
tokio-stream = "*"
stream-cancel = "*"
futures = "*"
bytes = "*"
clap = { version = "*", features = ["derive"] }
ouroboros = "*"
