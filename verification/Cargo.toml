[package]
name = "idmybee"
version = "0.1.0"
edition = "2021"
publish = false

[dependencies]
image = { version = "=0.25.10", default-features = false, features = ["jpeg", "png", "bmp", "webp", "tiff"] }
ucfirst = "=0.4.1"
argparse = "=0.2.2"
