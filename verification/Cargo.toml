[package]
name = "dscode"
version = "0.1.0"
edition = "2021"
publish = false

[dependencies]
glob = "0.3"
regex = "1"
ropey = "1"
uuid = { version = "1", features = ["v4"] }
chrono = { version = "0.4", default-features = false, features = ["clock", "std"] }
directories = "*"
serde = { version = "1", features = ["derive"] }
serde_json = "1"
git2 = { version = "*", default-features = false }
keyring = "*"
grep-regex = "*"
grep-matcher = "*"
grep-searcher = "*"
ignore = "*"
thiserror = "*"
