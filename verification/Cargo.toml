[package]
name = "cross"
version = "0.2.1"
edition = "2021"
publish = false

[dependencies]
atty = "0.2"
chrono = "0.4"
clap = { version = "3", features = ["derive", "env"] }
color-eyre = "0.6"
ctrlc = "3"
eyre = "0.6"
home = "0.5"
once_cell = "1"
regex = "1"
rustc_version = "0.4"
semver = "1"
serde = { version = "1", features = ["derive"] }
serde_ignored = "0.1"
serde_json = "1"
sha1_smol = "1"
shell-words = "1"
tempfile = "3"
thiserror = "1"
toml = "0.5"
which = "4"
