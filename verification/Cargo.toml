[package]
name = "child_timeout"
version = "0.1.0"
edition = "2021"
publish = false

[dependencies]
humantime = "2"
libc = "0.2"
nix = { version = "0.29", features = ["signal"] }
parse_duration = "2"
structopt = "0.3"
