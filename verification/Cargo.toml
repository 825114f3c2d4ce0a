[package]
name = "flowy_encryption"
version = "0.1.0"
edition = "2021"
publish = false

[dependencies]
aes-gcm = "=0.10.3"
argon2 = "=0.5.3"
base64 = "=0.22.1"
chacha20poly1305 = "=0.10.1"
pbkdf2 = "=0.12.2"
rand = "=0.8.8"
sha2 = "=0.10.9"
keyring = { version = "=3.6.3", features = ["apple-native", "windows-native", "linux-native-async-persistent", "async-io", "crypto-rust"] }
tracing = "=0.1.44"
