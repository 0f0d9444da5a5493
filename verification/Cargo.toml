[package]
name = "tmux-thumbs"
version = "0.8.0"
edition = "2021"
publish = false

[dependencies]
base64 = "0.13"
clap = "2.33"
regex = "1"
