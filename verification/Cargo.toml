[package]
name = "terrain_image_generator"
version = "0.1.0"
edition = "2021"
publish = false

[dependencies]
actix-cors = "*"
actix-files = "*"
actix-web = "*"
geojson = "*"
image = "*"
regex = "*"
serde = { version = "*", features = ["derive"] }
serde_json = "*"
svg = "*"
uuid = { version = "*", features = ["v4"] }
