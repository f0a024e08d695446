[package]
name = "fileman"
version = "0.2.0"
edition = "2021"
publish = false

[dependencies]
humansize = "2"
urlencoding = "2"
dirs = "6"
chrono = "0.4"
async-channel = "2"
gtk4 = { version = "0.10", features = ["v4_12"] }
libadwaita = { version = "0.8", features = ["v1_5"] }
gdk-pixbuf = "0.21"
pango = "0.21"
