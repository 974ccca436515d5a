[package]
name = "gba_save"
version = "0.1.0"
edition = "2021"
publish = false

[dependencies]
deranged = { version = "*", default-features = false }
embedded-io = { version = "*", default-features = false }
log = { version = "*", default-features = false }
serde = { version = "*", default-features = false }
