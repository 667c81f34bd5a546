[package]
name = "email_gate"
version = "0.1.0"
edition = "2021"
publish = false

[dependencies]
check-if-email-exists = "=0.11.8"
actix-web = { version = "4", default-features = false, features = ["macros", "openssl"] }
actix-cors = "*"
paperclip = { version = "*", features = ["actix4", "v3"] }
serde = { version = "*", features = ["derive"] }
serde_json = "*"
log = "*"
env_logger = "*"
openssl = "*"
gethostname = "*"
