[package]
name = "tokencrypt"
version = "1.0.0"
edition = "2021"
publish = false

[dependencies]
aes-gcm = "0.10"
argon2 = "0.5"
base64 = "0.22"
getrandom = "0.2"
hmac = "0.12"
pbkdf2 = "0.12"
sha3 = "0.10"
