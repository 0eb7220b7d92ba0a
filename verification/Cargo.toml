[package]
name = "orthanc_uploader"
version = "0.1.0"
edition = "2021"
publish = false

[dependencies]
serde_json = "*"
clap = { version = "*", features = ["derive"] }
crossbeam = "*"
reqwest = { version = "*", default-features = false, features = ["blocking"] }
threadpool = "*"
walkdir = "*"
