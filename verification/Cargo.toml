[package]
name = "swf_media"
version = "0.1.0"
edition = "2021"
publish = false

[dependencies]
flate2 = "*"
gif = "*"
png = "*"
jpeg-decoder = "*"
swf = "*"
clap = { version = "*", features = ["derive"] }
sxd-document = "*"
