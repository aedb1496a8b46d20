[package]
name = "liber"
version = "0.1.0"
edition = "2021"
publish = false

[dependencies]
quick-xml = "*"
zip = { version = "*", default-features = false, features = ["deflate"] }
chrono = "*"
uuid = { version = "*", features = ["v4"] }
tokio = { version = "*", features = ["fs", "io-util", "rt", "rt-multi-thread"] }
async_zip = { version = "*", features = ["tokio", "deflate"] }
futures = "*"
