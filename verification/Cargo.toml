[package]
name = "er_save_lib"
version = "0.1.0"
edition = "2021"
publish = false

[dependencies]
aes = "0.8"
cbc = { version = "0.1", features = ["alloc", "block-padding"] }
md-5 = "0.10"
sha2 = "0.10"
miniz_oxide = "0.8"
