[package]
name = "rustdb_storage"
version = "0.1.0"
edition = "2021"
publish = false

[dependencies]
bytes = "1"
bytemuck = { version = "1", features = ["derive"] }
