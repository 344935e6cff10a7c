[package]
name = "onevcs"
version = "0.1.0"
edition = "2021"
publish = false

[dependencies]
sha2 = "0.10"
icu_properties = "2"
toml = "*"
serde = { version = "1", features = ["derive"] }
serde_json = "1"
serde_yaml_ng = "*"
clap = { version = "4", features = ["derive"] }
url = "2"
time = { version = "0.3", features = ["formatting", "macros"] }
thiserror = "*"
