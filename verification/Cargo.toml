[package]
name = "shielded_observer"
version = "0.1.0"
edition = "2021"
publish = false

[dependencies]
chrono = "0.4"
serde_json = "1"
urlencoding = "2"
serde = { version = "1", features = ["derive"] }
rusqlite = { version = "0.31", features = ["bundled"] }
reqwest = { version = "0.12", default-features = false, features = ["blocking", "json", "rustls-tls"] }
egui = "0.27"
egui_plot = "0.27"
rfd = { version = "0.14", default-features = false, features = ["xdg-portal", "async-std"] }
polars = { version = "0.43", default-features = false, features = ["csv", "json"] }
