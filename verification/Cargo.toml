[package]
name = "packet_analysis"
version = "0.1.0"
edition = "2021"
publish = false

[dependencies]
base64 = "*"
chrono = "*"
dotenv = "*"
mysql_async = "*"
pcap = "*"
pnet = "*"
ratatui = "*"
tokio = { version = "*", features = ["rt"] }
