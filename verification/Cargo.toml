[package]
name = "snark_lab"
version = "0.1.0"
edition = "2021"
publish = false

[dependencies]
ark-ff = "0.5"
ark-ec = "0.5"
ark-bls12-381 = "0.5"
ark-serialize = "0.5"
merlin = "3"
sha2 = "0.10"
serde = { version = "1", features = ["derive"] }
serde_json = "1"
