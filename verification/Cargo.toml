[package]
name = "escpos2mqtt"
version = "0.1.0"
edition = "2021"
publish = false

[dependencies]
escpos-db = "=0.1.2"
jiff = "=0.2.38"
rustoku-lib = "=0.15.4"
textwrap = "=0.16.4"
unicode-width = "=0.2.2"
uuid = { version = "=1.27.0", features = ["v4"] }
escpos = { version = "=0.20.1", features = ["graphics"] }
snmp2 = "=0.5.2"
tokio = { version = "=1.53.2", features = ["full"] }
serde = { version = "=1.0.229", features = ["derive"] }
serde_json = "=1.0.151"
env_logger = "=0.11.11"
envconfig = "=0.11.1"
log = "=0.4.34"
anyhow = "=1.0.104"
thiserror = "=1.0.69"
futures = "=0.3.34"
ureq = "=3.4.2"
resvg = "=0.48.1"
mqtt-typed-client = "=0.4.1"
mqtt-typed-client-core = "=0.4.1"
mqtt-typed-client-macros = "=0.4.0"
