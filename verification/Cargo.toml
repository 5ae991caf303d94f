[package]
name = "proton"
version = "0.1.0"
edition = "2021"
publish = false

[dependencies]
embedded-hal = { version = "=0.2.7", features = ["unproven"] }
heapless = "=0.7.17"
graphity = "=2.0.0"
embedded-graphics = "=0.7.1"
embedded-graphics-core = "=0.3.3"
micromath = "=2.1.0"
dasp = { version = "=0.11.0", features = ["signal"] }
