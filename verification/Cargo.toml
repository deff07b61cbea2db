[package]
name = "shiguredo_mpd"
version = "0.1.0"
edition = "2021"
publish = false

[dependencies]
xml = "1.2"
