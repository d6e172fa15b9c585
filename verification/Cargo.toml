[package]
name = "gfs_lite"
version = "0.1.0"
edition = "2021"
publish = false

[dependencies]
rand = "0.8"
futures = "0.3"
tarpc = { version = "*", features = ["full"] }
tokio = { version = "1", features = ["macros", "rt-multi-thread", "net", "io-std", "io-util"] }
