[package]
name = "bucketmount"
version = "0.1.0"
edition = "2021"
publish = false

[dependencies]
dirs = "5"
libc = "0.2"
notify = "6"
serde = { version = "1", features = ["derive"] }
serde_json = "1"
sha1_smol = "1"
time = { version = "0.3", features = ["formatting", "parsing"] }
toml = "0.8"
ureq = { version = "2", features = ["json"] }
