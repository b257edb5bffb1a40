[package]
name = "fencryption"
version = "0.1.0"
edition = "2021"
publish = false

[dependencies]
aes-gcm = "*"
clap = { version = "*", features = ["derive"] }
colored = "*"
console = "*"
getrandom = "*"
human-duration = "*"
rpassword = "*"
sha2 = "*"
zeroize = "*"
