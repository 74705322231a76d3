[package]
name = "yewoh"
version = "0.1.0"
edition = "2021"
publish = false

[dependencies]
md5 = "0.7"
flate2 = "1"
encode_unicode = "1"
smallvec = "1"
twofish = "0.7"
tokio = { version = "1", features = ["net", "io-util", "rt", "macros", "fs"] }
anyhow = "1"
serde = { version = "1", features = ["derive"] }
