[package]
name = "gitflux"
version = "0.1.0"
edition = "2021"
publish = false

[dependencies]
sha2 = "*"
git2 = { version = "*", default-features = false }
serde = { version = "1", features = ["derive"] }
serde_json = "1"
wgpu = "*"
pollster = "*"
bytemuck = { version = "1", features = ["derive"] }
image = { version = "*", default-features = false, features = ["png"] }
minifb = "*"
