[package]
name = "opal_wm"
version = "0.1.0"
edition = "2021"
publish = false

[dependencies]
bincode = "2"
bitflags = "2"
indexmap = "2"
rustc-hash = "2"
safa-api = "*"
thiserror = "*"
zerocopy = { version = "0.8", features = ["derive"] }
zerocopy-derive = "0.8"
