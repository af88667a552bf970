[package]
name = "risico"
version = "0.1.0"
edition = "2021"
publish = false

[dependencies]
chrono = "0.4"
libflate = "*"
serde = { version = "1", features = ["derive"] }
serde_yaml = "0.9"
clap = { version = "4", features = ["derive"] }
memmap2 = "0.9"
log = "0.4"
pretty_env_logger = "*"
geotiff-reader = "*"
rayon = "1"
