[package]
name = "dvsynth"
version = "0.1.0"
edition = "2021"
publish = false

[dependencies]
petgraph = "*"
byteorder = "*"
crossbeam = "*"
arc-swap = "*"
lazy_static = "*"
downcast-rs = "*"
dyn-clone = "*"
