[package]
name = "swmv"
version = "0.1.0"
edition = "2021"
publish = false

[dependencies]
actix-cors = "*"
actix-files = "*"
actix-rt = "*"
actix-web = "*"
anyhow = "*"
clap = "*"
directories = "*"
env_logger = "*"
log = "*"
notify = "*"
num_cpus = "*"
once_cell = "*"
rayon = "*"
serde_json = "*"
tempfile = "*"
walkdir = "*"
which = "*"
