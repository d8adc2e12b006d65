[package]
name = "module_writer"
version = "0.1.0"
edition = "2021"
publish = false

[dependencies]
base64 = "*"
sha2 = "*"
zip = { version = "*", default-features = false, features = ["deflate"] }
tar = "*"
flate2 = "*"
ignore = "*"
fs-err = "*"
glob = "*"
normpath = "*"
cbindgen = { version = "*", default-features = false }
tempfile = "*"
