[package]
name = "blindspot"
version = "0.1.0"
edition = "2021"
publish = false

[dependencies]
anyhow = "=1.0.104"
async-compression = { version = "=0.4.51", features = ["futures-io", "gzip", "bzip2", "xz"] }
async-std = "=1.13.2"
async-tar = "=0.6.1"
chrono = { version = "=0.4.45", features = ["serde"] }
dirs-next = "=2.0.0"
isahc = { version = "=1.8.3", features = ["json"] }
once_cell = "=1.21.4"
progress_string = "=0.1.1"
serde = { version = "=1.0.229", features = ["derive"] }
serde_derive = "=1.0.229"
serde_json = "=1.0.154"
serde_yaml = "=0.9.34"
smol = "=2.0.2"
structopt = "=0.3.26"
termion = "=1.5.6"
