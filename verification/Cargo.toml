[package]
name = "sp1_sect"
version = "0.1.0"
edition = "2021"
publish = false

[dependencies]
p3-baby-bear = "*"
p3-field = "*"
p3-poseidon2 = "*"
p3-symmetric = "*"
ff = "0.13"
zkhash = "*"
serde = { version = "1", features = ["derive"] }
serde_json = "1"
anyhow = "1"
tracing = "0.1"
