[package]
name = "nuprompt"
version = "0.1.0"
edition = "2021"
publish = false

[dependencies]
anyhow = "*"
coarsetime = "*"
env_logger = "*"
git2 = { version = "*", default-features = false }
log = "*"
termcolor = "*"
users = "*"
