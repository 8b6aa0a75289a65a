[package]
name = "wwmtf_app"
version = "0.1.0"
edition = "2021"
publish = false

[dependencies]
argon2 = { version = "=0.5.3", features = ["std"] }
async-lock = "=3.5.0"
async-trait = "=0.1.92"
base64 = "=0.22.1"
env_logger = { version = "=0.11.11", default-features = false }
futures-lite = "=2.6.1"
hyperchad = { version = "*", default-features = false, features = ["template"] }
image = { version = "=0.25.10", default-features = false, features = ["jpeg", "png", "webp"] }
log = "=0.4.35"
openidconnect = { version = "=4.1.0", default-features = false, features = ["reqwest"] }
rand_core = { version = "=0.6.4", features = ["getrandom", "std"] }
reqwest = { version = "=0.12.28", default-features = false }
serde = { version = "=1.0.229", features = ["derive"] }
serde_json = "=1.0.154"
sha2 = "=0.10.9"
switchy_database = { version = "=0.5.0", default-features = false, features = ["auto-reverse", "schema"] }
switchy_database_connection = { version = "=0.5.0", default-features = false, features = ["sqlite-rusqlite"] }
switchy_schema = { version = "=0.5.0", default-features = false, features = ["auto-reverse", "code"] }
thiserror = "=2.0.21"
time = "=0.3.55"
tokio = { version = "=1.54.1", features = ["rt-multi-thread", "net", "time"] }
uuid = { version = "=1.29.0", features = ["v4"] }
