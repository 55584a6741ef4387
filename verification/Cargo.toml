[package]
name = "ddns4cf"
version = "0.1.0"
edition = "2021"
publish = false

[dependencies]
regex = "*"
tokio = { version = "*", features = ["full"] }
reqwest = { version = "*", default-features = false }
serde = { version = "*", features = ["derive"] }
simd-json = "*"
json5 = "*"
clap = "*"
log = "*"
fern = "*"
chrono = "*"
futures = "*"
async-trait = "*"
smallvec = "*"
bytes = "*"
