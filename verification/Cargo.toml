[package]
name = "rapace"
version = "0.1.0"
edition = "2021"
publish = false

[dependencies]
heck = "=0.5.0"
libc = "=0.2.191"
object-pool = "0.6"
