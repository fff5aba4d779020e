[package]
name = "emilydotgg-random"
version = "0.1.0"
edition = "2021"
publish = false

[dependencies]
bincode = "=1.3.3"
chrono = "=0.4.45"
fpsdk = "=1.0.3"
futures = "0.3"
iced = { version = "=0.4.2", features = ["pure", "canvas", "tokio"] }
iced_native = "=0.5.1"
log = "0.4"
parking_lot = "0.12"
plotters = { version = "0.3", default-features = false, features = ["chrono", "line_series"] }
plotters-iced = { version = "=0.3.3", features = ["pure"] }
rand = "=0.8.8"
simple-logging = "2.0"
tokio = { version = "1", features = ["sync"] }
windows = { version = "=0.39.0", features = ["Win32_Foundation", "Win32_UI_WindowsAndMessaging"] }
