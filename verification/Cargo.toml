[package]
name = "blog_posts"
version = "0.1.0"
edition = "2021"
publish = false

[dependencies]
chrono = "0.4"
pulldown-cmark = "*"
toml = "0.8"
serde = { version = "1", features = ["derive"] }
rocket = { version = "0.5", features = ["json"] }
rocket_dyn_templates = { version = "*", features = ["tera"] }
