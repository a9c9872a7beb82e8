[package]
name = "greatshot"
version = "0.1.0"
edition = "2021"
publish = false

[dependencies]
gtk4 = { version = "=0.11.5", features = ["v4_12"] }
libadwaita = { version = "=0.9.2", features = ["v1_5"] }
gdk-pixbuf = "=0.22.0"
ashpd = { version = "=0.13.13", default-features = false, features = ["tokio", "screenshot"] }
gettext-rs = { version = "=0.8.0", features = ["gettext-system"] }
tokio = { version = "=1.54.1", features = ["rt-multi-thread", "time"] }
