[package]
name = "nlmon"
version = "0.1.0"
edition = "2021"
publish = false

[dependencies]
futures = "*"
libc = "*"
netlink-sys = "*"
rtnetlink = "*"
tokio = { version = "*", features = ["macros", "rt-multi-thread"] }
