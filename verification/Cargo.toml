[package]
name = "dtls"
version = "0.1.0"
edition = "2021"
publish = false

[dependencies]
rand = "0.9"
rcgen = "0.14"
sha2 = "0.10"
tokio = { version = "1", features = ["net", "rt-multi-thread", "macros"] }
