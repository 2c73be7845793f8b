[package]
name = "clap_md"
version = "0.1.0"
edition = "2021"
publish = false

[dependencies]
clap_builder = "4"
stackstack = "*"

[dev-dependencies]
clap = "4"
