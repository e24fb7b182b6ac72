[package]
name = "xbrstudio"
version = "0.1.0"
edition = "2021"
publish = false

[dependencies]
clap = { version = "4", features = ["derive"] }
image = { version = "0.25", default-features = false, features = ["png"] }
rayon = "1"
serde = { version = "1", features = ["derive"] }
serde_json = "1"
xbrz-rs = "*"
zip = { version = "*", default-features = false, features = ["deflate"] }
