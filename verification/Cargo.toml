[package]
name = "machina_hw"
version = "0.1.0"
edition = "2021"
publish = false

[dependencies]
flate2 = "=1.1.10"
sha2 = "=0.10.9"

[dev-dependencies]
sbi-spec = { version = "=0.0.9", features = ["legacy"] }
