[package]
name = "foldpot"
version = "0.1.0"
edition = "2021"
publish = false

[dependencies]
ark-bn254 = "=0.5.0"
ark-grumpkin = "=0.5.0"
ark-ff = "=0.5.0"
ark-ec = "=0.5.0"
ark-poly = "=0.5.0"
ark-serialize = "=0.5.0"
ark-std = "=0.5.0"
ark-relations = "=0.5.1"
ark-r1cs-std = "=0.5.0"
ark-snark = "=0.5.1"
ark-groth16 = "=0.5.0"
ark-crypto-primitives = { version = "=0.5.0", features = ["sponge", "crh", "r1cs"] }
sha2 = "=0.10.9"
sha3 = "=0.10.9"
rand = "=0.8.8"
rayon = "=1.12.0"
