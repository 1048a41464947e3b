[package]
name = "spectrex"
version = "0.1.0"
edition = "2021"
publish = false

[dependencies]
fnv = "1"
rc4 = "0.1"
salsa20 = "0.10"
sha2 = "0.10"
siphasher = "1"
suffix_array = "*"
xxhash-rust = { version = "0.8", features = ["xxh64"] }
