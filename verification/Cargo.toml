[package]
name = "odbc_tools"
version = "0.1.0"
edition = "2021"
publish = false

[dependencies]
cotton = "=0.1.1"
odbc-avro = "=0.2.1"
odbc-iter = { version = "=0.2.7", features = ["serde"] }
serde_json = "=1.0.154"
