[package]
name = "minlabel"
version = "0.1.0"
edition = "2021"
publish = false

[dependencies]
serde = { version = "1", features = ["derive"] }
serde_json = "1"
tokio = { version = "1", features = ["rt", "sync", "time", "macros", "net"] }
tokio-tungstenite = "*"
futures-util = { version = "0.3", default-features = false, features = ["sink", "std"] }
reqwest = { version = "*", default-features = false, features = ["blocking", "json", "multipart"] }
eframe = { version = "*", default-features = false, features = ["glow", "x11", "default_fonts"] }
rfd = { version = "*", default-features = false, features = ["xdg-portal", "tokio"] }
