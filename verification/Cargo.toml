[package]
name = "node_graph"
version = "0.1.0"
edition = "2021"
publish = false

[dependencies]
glam = "*"
slotmap = "1"
web-sys = { version = "0.3", features = ["Element", "DomRect"] }
yew = "0.20"
