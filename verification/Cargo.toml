[package]
name = "wallust"
version = "3.4.0"
edition = "2021"
publish = false

[dependencies]
anyhow = "1"
clap = { version = "4", features = ["derive"] }
dirs = "5"
dunce = "1"
fast_image_resize = "5"
fastrand = "2"
image = { version = "0.25", default-features = false, features = ["png", "jpeg", "gif", "webp", "bmp", "tiff", "ico"] }
itertools = "0.13"
kmeans_colors = { version = "0.6", default-features = false, features = ["palette_color"] }
owo-colors = "4"
palette = "0.7"
serde = { version = "1", features = ["derive"] }
serde_json = "1"
spinners = "4"
toml = "0.8"
toml_edit = "0.22"
