[package]
name = "sliver"
version = "0.1.0"
edition = "2021"
publish = false

[dependencies]
anyhow = "1"
cairo-rs = { version = "*", features = ["png"] }
chrono = "0.4"
ctrlc = "3"
gtk4 = "*"
libadwaita = "*"
libc = "0.2"
memmap2 = "0.9"
mlua = { version = "*", features = ["lua54", "vendored"] }
pango = "*"
pangocairo = "*"
serde = { version = "1", features = ["derive"] }
toml = "0.8"
