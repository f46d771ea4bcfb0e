[package]
name = "lockstep"
version = "0.1.0"
edition = "2021"
publish = false

[dependencies]
quickcheck = { version = "0.6", default-features = false }
rand = "0.4"
rand_derive = "0.3"
