[package]
name = "comm_handler"
version = "0.1.0"
edition = "2021"
publish = false

[dependencies]
flume = "*"
log = "*"
serial2 = "*"
snafu = "*"
uuid = "*"
tokio = { version = "*", features = ["rt-multi-thread", "time"] }
btleplug = "*"
