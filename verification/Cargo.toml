[package]
name = "attini"
version = "0.1.0"
edition = "2021"
publish = false

[dependencies]
nojson = "*"
sha2 = "*"
noargs = "*"
shiguredo_http11 = "*"
rustls-platform-verifier = "*"
tokio = { version = "*", features = ["io-std", "io-util", "macros", "net", "rt-multi-thread", "sync", "time"] }
tokio-rustls = "*"
