[package]
name = "rusty_controller"
version = "0.1.0"
edition = "2021"
publish = false

[dependencies]
pnet = "*"
mio = "0.6"
serde = { version = "1", features = ["derive"] }
serde_json = "1"
log = "0.4"
fern = { version = "0.6", features = ["colored"] }
colored = "2"
chrono = "0.4"
rs_ws281x = "*"
