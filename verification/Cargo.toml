[package]
name = "pdftui"
version = "0.1.0"
edition = "2021"
publish = false

[dependencies]
crossterm = { version = "=0.29.0", features = ["event-stream"] }
csscolorparser = "=0.9.0"
debounce = "=0.2.2"
flexi_logger = "=0.31.10"
flume = "=0.12.0"
futures-util = { version = "=0.3.34", default-features = false }
kittage = { version = "=0.4.0", features = ["crossterm-tokio"] }
notify = "=8.2.1"
ratatui = "=0.30.2"
ratatui-image = { version = "=11.1.0", default-features = false, features = ["crossterm"] }
tokio = { version = "=1.54.1", features = ["fs", "io-util", "macros", "net", "rt-multi-thread", "time"] }
xflags = "=0.3.2"
