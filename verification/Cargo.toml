[package]
name = "minish"
version = "0.1.0"
edition = "2021"
publish = false

[dependencies]
bytemuck = "=1.25.2"
genio = "=0.2.1"
memchr = "=2.8.3"
talc = { version = "=4.4.3", default-features = false, features = ["lock_api"] }
