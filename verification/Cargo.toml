[package]
name = "hikaru"
version = "0.1.0"
edition = "2021"
publish = false

[dependencies]
midly = "0.5"
hound = "3.5"
midir = "0.10"
egui = { version = "0.27", default-features = false }
