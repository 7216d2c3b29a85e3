[package]
name = "windows_toolchain_builder"
version = "0.1.0"
edition = "2021"
publish = false

[dependencies]
archlinux-repo = "=0.1.6"
clap = "=2.34.0"
compress-tools = "=0.16.1"
futures = "=0.3.34"
indicatif = "=0.15.0"
num_cpus = "=1.17.0"
regex = "=1.13.1"
# Held at the last release that archlinux-repo 0.1.6 compiles against.
serde = "=1.0.219"
tokio = { version = "1", features = ["fs", "io-util", "macros", "rt-multi-thread"] }
