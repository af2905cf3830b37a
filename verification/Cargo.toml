[package]
name = "sudoors"
version = "0.1.0"
edition = "2021"
publish = false

[dependencies]
anyhow = "1"
clap = { version = "4", features = ["derive"] }
clap-verbosity-flag = "2"
diesel = { version = "2", features = ["sqlite"] }
dotenv = "0.15"
gethostname = "0.5"
log = "0.4"
prost = "0.13"
reqwest = { version = "0.12", default-features = false }
rocket = { version = "0.5", features = ["json"] }
serde = { version = "1", features = ["derive"] }
serde_json = "1"
simple_logger = "5"
tera = "1"
tokio = { version = "1", features = ["full"] }
tonic = "0.12"
