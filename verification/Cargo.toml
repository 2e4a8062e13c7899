[package]
name = "rabbitagent"
version = "0.1.0"
edition = "2021"
publish = false

[dependencies]
ed25519-dalek = "=2.2.0"
ring = "=0.17.14"
sha3 = "=0.10.9"
blake3 = "=1.8.7"
hmac = "=0.12.1"
sha2 = "=0.10.9"
hkdf = "=0.12.4"
aes-gcm = "=0.10.3"
chacha20poly1305 = "=0.10.1"
rand_core = { version = "=0.6.4", features = ["getrandom"] }
rand = "=0.8.8"
reed-solomon-erasure = "=6.0.0"
openssl = "=0.10.82"
bellman = "=0.14.0"
serde = { version = "=1.0.229", features = ["derive"] }
serde_json = "=1.0.154"
tokio = { version = "=1.54.1", features = ["rt-multi-thread", "macros", "time", "sync"] }
pkcs11 = "=0.5.0"
sysinfo = "=0.30.13"
rayon = "=1.12.0"
quantiles = "=0.7.1"
governor = "=0.6.3"
prometheus = { version = "=0.13.4", default-features = false }
bls12_381 = "=0.8.0"
bulletproofs = "=4.0.0"
merlin = "=3.0.0"
ethsign = "=0.9.0"
aes-gcm-siv = "=0.11.1"
memmap = "=0.7.0"
curve25519-dalek-ng = "=4.1.1"
