[package]
name = "dir_cleanup"
version = "0.1.0"
edition = "2021"
publish = false

[dependencies]
walkdir = "2"
