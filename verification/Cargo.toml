[package]
name = "broadcaster"
version = "0.1.0"
edition = "2021"
publish = false

[dependencies]
actix-web = "=4.15.0"
actix-web-lab = "=0.19.2"
futures-util = "=0.3.34"
nanoid = "=0.4.0"
parking_lot = "=0.12.5"
