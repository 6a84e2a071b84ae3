[package]
name = "corefetch"
version = "0.1.0"
edition = "2021"
publish = false

[dependencies]
colored = "*"
dirs = "*"
sysinfo = "*"

[dev-dependencies]
toml = "*"
