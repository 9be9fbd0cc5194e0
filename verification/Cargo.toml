[package]
name = "soma"
version = "0.1.0"
edition = "2021"
publish = false

[dependencies]
url = "*"
serde = { version = "*", features = ["derive"] }
toml = "*"
tempfile = "*"
fs_extra = "*"
remove_dir_all = "*"
git2 = "*"
bollard = "*"
clap = "*"
whoami = "*"
futures = "*"
