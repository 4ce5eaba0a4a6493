[package]
name = "hcomms_staging"
version = "0.1.0"
edition = "2021"
publish = false

[dependencies]
include_dir = "0.6"
sciter-rs = "0.5"
winapi = { version = "0.3", features = ["wincon"] }
