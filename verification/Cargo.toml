[package]
name = "seisbox"
version = "0.1.0"
edition = "2021"
publish = false

[dependencies]
chrono = { version = "=0.4.45", default-features = false, features = ["alloc"] }
image = { version = "=0.25.10", default-features = false, features = ["png"] }
sacio = "=0.1.0"
miniseed-rs = "=0.2.2"
rustfft = "=6.4.1"
csv = "=1.4.0"
reqwest = { version = "=0.12.28", default-features = false, features = ["blocking", "rustls-tls"] }
rayon = "1"
