[package]
name = "passman"
version = "0.4.0"
edition = "2021"
publish = false

[dependencies]
aes = "0.7"
argon2 = "0.3"
base64 = "0.13"
block-modes = "0.8"
chrono = "0.4"
clap = { version = "3", features = ["derive"] }
fuzzy-matcher = "0.3"
google-authenticator = { version = "*", default-features = false }
lazy_static = "1"
rand = "0.8"
rand_core = { version = "0.6", features = ["getrandom"] }
rpassword = "5"
serde = { version = "1", features = ["derive"] }
serde_yaml = "0.8"
sha2 = "0.9"
signal-hook = "0.3"
termion = "1.5"
textwrap = "0.14"
thiserror = "1"
tui = "0.16"
