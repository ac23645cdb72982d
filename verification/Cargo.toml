[package]
name = "rustymixer"
version = "0.1.0"
edition = "2021"
publish = false

[dependencies]
rusqlite = { version = "*", features = ["bundled"] }
symphonia = "*"
lofty = "*"
realfft = "*"
rustfft = "*"
crossbeam = "*"
cpal = "*"
ringbuf = "*"
thiserror = "*"
tracing = "*"
serde = { version = "*", features = ["derive"] }
