[package]
name = "beam_file"
version = "0.3.1"
edition = "2021"
publish = false

[dependencies]
eetf = "*"
libflate = "*"
thiserror = "*"
