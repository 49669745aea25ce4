[package]
name = "pwm"
version = "0.1.0"
edition = "2021"
publish = false

[dependencies]
aes-gcm = "0.10"
pbkdf2 = "0.12"
sha2 = "0.10"
hex = "0.4"
rand = "0.8"
zeroize = "1"
serde = { version = "1", features = ["derive"] }
serde_json = "1"
arboard = "3"
rpassword = "7"
iced = { version = "0.13", default-features = false, features = ["tiny-skia", "tokio"] }
