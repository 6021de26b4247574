[package]
name = "rl_arena"
version = "0.1.0"
edition = "2021"
publish = false

[dependencies]
rocketsim_rs = { version = "=0.37.0", default-features = false, features = ["glam"] }
