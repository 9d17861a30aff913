[package]
name = "pdf_images"
version = "0.1.0"
edition = "2021"
publish = false

[dependencies]
chrono = "0.4"
clap = { version = "4", features = ["derive"] }
env_logger = "0.11"
log = "0.4"
num_cpus = "1"
pdf = "0.9"
regex = "1"
sysinfo = "0.32"
threadpool = "1"
