[package]
name = "videolen"
version = "0.1.0"
edition = "2021"
publish = false

[dependencies]
anyhow = "1"
ffmpeg-next = "*"
humantime = "2"
prettytable-rs = "*"
structopt = "0.3"
