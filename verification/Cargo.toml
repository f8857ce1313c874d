[package]
name = "ex_open_directory"
version = "0.1.0"
edition = "2021"
publish = false

[dependencies]
objc2 = "0.6"
objc2-foundation = "0.3"
objc2-open-directory = "0.3"
rustler = "*"
