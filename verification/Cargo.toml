[package]
name = "bls_sig"
version = "0.1.0"
edition = "2021"
publish = false

[dependencies]
bls12_381_plus = "=0.9.0"
group = "=0.14.0"
subtle = "=2.6.1"
serde = { version = "=1.0.229", features = ["derive"] }
sha2 = "=0.10.9"
