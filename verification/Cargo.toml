[package]
name = "bsh"
version = "0.1.0"
edition = "2021"
publish = false

[dependencies]
rustyline = "9"
nix = "0.23"
libc = "0.2"
docopt = "1"
serde = { version = "1", features = ["derive"] }
atty = "0.2"
dirs = "4"
log = "0.4"
simplelog = "0.12"
