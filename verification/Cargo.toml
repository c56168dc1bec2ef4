[package]
name = "audire"
version = "0.1.0"
edition = "2021"
publish = false

[dependencies]
chacha20poly1305 = "=0.10.1"
x25519-dalek = { version = "=2.0.1", features = ["static_secrets"] }
hkdf = "=0.12.4"
sha2 = "=0.10.9"
ring = "=0.17.14"
hex = "=0.4.3"
argon2 = "=0.5.3"
base64 = "=0.22.1"
keyring = { version = "=3.6.3", default-features = false, features = ["apple-native", "windows-native", "linux-native"] }
serde = { version = "=1.0.229", features = ["derive"] }
serde_json = "=1.0.154"
uuid = { version = "=1.29.0", features = ["v4"] }
thiserror = "=1.0.69"
zeroize = "=1.9.1"
chrono = { version = "=0.4.45", default-features = false, features = ["std", "clock"] }
urlencoding = "=2.1.3"
