[package]
name = "httpsys"
version = "0.1.0"
edition = "2021"
publish = false

[dependencies]
atomic-waker = "1"
axum = "0.8"
bytes = "1"
clap = { version = "4", features = ["derive"] }
crossbeam-queue = "0.3"
http-body-util = "0.1"
hyper = { version = "1", features = ["client", "http1"] }
hyper-util = { version = "0.1", features = ["tokio"] }
plotters = { version = "0.3", default-features = false, features = ["svg_backend", "all_series", "all_elements"] }
rand = "0.8"
reqwest = { version = "0.12", default-features = false, features = ["blocking", "rustls-tls"] }
tokio = { version = "1", features = ["rt-multi-thread", "net", "time", "sync", "macros"] }
windows = { version = "0.61", features = ["Win32_Foundation", "Win32_Networking_HttpServer", "Win32_Networking_WinSock", "Win32_Security", "Win32_Storage_FileSystem", "Win32_System_IO", "Win32_System_Threading"] }
