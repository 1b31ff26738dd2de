[package]
name = "s3ls"
version = "0.1.0"
edition = "2021"
publish = false

[dependencies]
anyhow = "1"
rusoto_core = { version = "0.48", default-features = false, features = ["rustls"] }
rusoto_s3 = { version = "0.48", default-features = false, features = ["rustls"] }
structopt = "0.3"
tokio = { version = "1", features = ["macros", "rt-multi-thread"] }
