[package]
name = "ssg_core"
version = "0.1.0"
edition = "2021"
publish = false

[dependencies]
pulldown-cmark = "*"
slug = "*"
uuid = { version = "*", features = ["v5"] }
jiff = "*"
tl = "*"
walkdir = "*"
infer = "*"
atom_syndication = "*"
chrono = "*"
