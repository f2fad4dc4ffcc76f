[package]
name = "iotics_cli"
version = "0.1.0"
edition = "2021"
publish = false

[dependencies]
anyhow = "1"
base64 = "=0.23.1"
config = "*"
futures = "*"
iotics-grpc-client = "=2.0.1"
log = "*"
oxigraph = { version = "=0.2.5", default-features = false }
pretty_env_logger = "*"
reqwest = { version = "*", default-features = false, features = ["json"] }
run_script = "*"
serde = { version = "*", features = ["derive"] }
serde-aux = "*"
serde_json = "=1.0.151"
structopt = "*"
tokio = { version = "1", features = ["rt-multi-thread", "macros", "sync", "time"] }
yansi = "*"
