[package]
name = "fuse_storage"
version = "0.1.0"
edition = "2021"
publish = false

[dependencies]
ahash = "0.8"
bitpacking = "0.9"
byteorder = "1"
chrono = "0.4"
chrono-tz = "*"
futures = "0.3"
itertools = "*"
jiff = "*"
lexical-core = "1"
opendal = { version = "*", default-features = false }
rustc-demangle = "0.1"
serde_json = "1"
simdutf8 = "*"
tokio = { version = "1", features = ["rt", "sync"] }
uuid = { version = "1", features = ["v4", "v7"] }
