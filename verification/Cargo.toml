[package]
name = "plutau"
version = "0.1.0"
edition = "2021"
publish = false

[dependencies]
rtrb = "0.3"
hound = "3.5"
rubato = "0.15"
tdpsola = "0.1"
serde = { version = "1", features = ["derive"] }
