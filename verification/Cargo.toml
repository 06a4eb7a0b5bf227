[package]
name = "spectrum_analyzer"
version = "0.1.0"
edition = "2021"
publish = false

[dependencies]
libm = "=0.2.16"
microfft = { version = "=0.6.0", features = ["size-32768"] }

[dev-dependencies]
float-cmp = "=0.10.0"
