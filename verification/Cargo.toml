[package]
name = "imag"
version = "0.2.0"
edition = "2021"
publish = false

[dependencies]
chrono = { version = "0.4", default-features = false }
clap = "2"
git2 = { version = "*", default-features = false }
glob = "0.3"
log = "0.4"
regex = "1"
semver = "1"
serde_json = "1"
task-hookrs = "*"
tempfile = "3"
toml = "0.8"
url = "2"
uuid = "1"
