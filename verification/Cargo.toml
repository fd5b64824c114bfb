[package]
name = "zkp_circuits"
version = "0.1.0"
edition = "2021"
publish = false

[dependencies]
blake3 = { version = "1", default-features = false, features = ["std", "pure"] }
rand = "0.8"
rand_chacha = "0.3"
md5 = "0.7"
bincode = "1.3"
serde = { version = "1", features = ["derive"] }
chrono = { version = "0.4", default-features = false, features = ["clock", "std"] }
thiserror = "1"
