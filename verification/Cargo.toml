[package]
name = "iroh-live"
version = "0.1.0"
edition = "2021"
publish = false

[dependencies]
data-encoding = "=2.11.1"
postcard = { version = "=1.1.3", features = ["use-std"] }
iroh = { version = "=1.4.1", default-features = false }
qrcode = { version = "=0.14.1", default-features = false }
rqrr = { version = "=0.11.0", default-features = false }
rxing = { version = "=0.9.3", default-features = false, features = ["encoding_rs", "encoders", "decoders", "full_barcode_format_support", "multi_barcode_readers"] }
clap = { version = "4", default-features = false, features = ["derive", "std", "help", "usage", "error-context"] }
serde = { version = "1", features = ["derive"] }
toml = { version = "*", default-features = false, features = ["parse", "serde"] }
tokio = { version = "1", features = ["rt-multi-thread", "macros", "sync", "time", "signal", "fs"] }
tokio-util = "*"
n0-error = "*"
n0-future = "*"
tracing = "*"
tracing-subscriber = { version = "*", default-features = false, features = ["fmt", "env-filter"] }
anyhow = "1"
bytes = "1"
