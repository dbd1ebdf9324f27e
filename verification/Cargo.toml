[package]
name = "zkproof"
version = "0.1.0"
edition = "2021"
publish = false

[dependencies]
ark-bn254 = "=0.6.0"
ark-circom = { version = "=0.6.0", default-features = false }
ark-ff = "=0.6.0"
ark-groth16 = "=0.6.0"
ark-relations = "=0.6.0"
ark-serialize = "=0.6.0"
ark-snark = "=0.6.0"
ark-std = { version = "=0.6.0", features = ["getrandom"] }
hex = "=0.4.3"
num-bigint = "=0.4.8"
tokio = { version = "=1.54.1", features = ["rt-multi-thread"] }
