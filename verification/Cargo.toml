[package]
name = "leafquery"
version = "0.1.0"
edition = "2021"
publish = false

[dependencies]
zstd = "*"
lz4 = "*"
lzzzz = "*"
anyhow = "*"
rayon = "*"
os_str_bytes = "*"
clap = { version = "*", features = ["derive"] }
