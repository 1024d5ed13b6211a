[package]
name = "plugin_panoramic"
version = "0.1.0"
edition = "2021"
publish = false

[dependencies]
image = { version = "0.25", default-features = false, features = ["jpeg"] }
kamadak-exif = "0.5"
clap = { version = "4", features = ["derive"] }
serde = { version = "1", features = ["derive"] }
serde_json = "1"
glob = "0.3"
rayon = "1"
tobj = "4"
geo = "*"
geo-types = "0.7"
geojson = "*"
itertools = "0.13"
