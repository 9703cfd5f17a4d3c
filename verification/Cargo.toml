[package]
name = "geoffrey"
version = "0.1.0"
edition = "2021"
publish = false

[dependencies]
anyhow = "1"
clap = { version = "4", features = ["derive"] }
flexi_logger = "*"
log = "0.4"
nom = "7"
rayon = "1"
regex = "1"
thiserror = "*"
yansi = "*"
