[package]
name = "waj"
version = "0.1.0"
edition = "2021"
publish = false

[dependencies]
anyhow = "=1.0.104"
ascii = "=1.1.0"
blake3 = "=1.8.7"
clap = { version = "=4.6.7", features = ["derive"] }
env_logger = "=0.11.11"
http-range-header = "=0.4.2"
indicatif = "=0.18.6"
jubako = { version = "=0.4.1", features = ["clap", "lz4"] }
log = "=0.4.34"
mime_guess = "=2.0.5"
percent-encoding = "=2.3.2"
signal-hook = "=0.4.5"
tempfile = "=3.27.0"
tiny_http = "=0.12.0"
walkdir = "=2.5.0"
