[package]
name = "agraphon"
version = "0.1.0"
edition = "2021"
publish = false

[dependencies]
hkdf = "=0.12.4"
sha2 = "=0.10.9"
argon2 = "=0.5.3"
aes = "=0.8.4"
ctr = "=0.9.2"
aes-siv = "=0.7.0"
getrandom = "=0.2.17"
libcrux-ml-kem = "=0.0.10"
libcrux-ml-dsa = "=0.0.10"
ed25519-dalek = "*"
blake3 = "*"
