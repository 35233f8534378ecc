[package]
name = "gpux"
version = "0.1.0"
edition = "2021"
publish = false

[dependencies]
icondata = "*"
rfd = "0.15"
ureq = { version = "2", default-features = false }
once_cell = "1"
