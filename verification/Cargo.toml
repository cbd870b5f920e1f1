[package]
name = "rsdk"
version = "0.1.0"
edition = "2021"
publish = false

[dependencies]
md5 = "*"
anyhow = "*"
clap = { version = "*", features = ["derive"] }
directories = "*"
flate2 = "*"
indicatif = "*"
reqwest = { version = "*", default-features = false, features = ["blocking"] }
serde = { version = "*", features = ["derive"] }
serde_ini = "*"
symlink = "*"
tar = "*"
zip = { version = "*", default-features = false, features = ["deflate"] }
