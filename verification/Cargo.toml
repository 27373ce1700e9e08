[package]
name = "mdreflow"
version = "0.1.0"
edition = "2021"
publish = false

[dependencies]
tex-fmt = "*"
rayon = "*"
serde = { version = "*", features = ["derive"] }
serde_json = "*"
