[package]
name = "flight_sql_gateway"
version = "0.1.0"
edition = "2021"
publish = false

[dependencies]
regex = "=1.13.1"
uuid = { version = "=1.27.0", features = ["v4"] }
arrow-flight = { version = "=59.3.0", features = ["flight-sql-experimental"] }
arrow-ipc = "=59.3.0"
arrow-schema = "=59.3.0"
prost = "=0.14.4"
tonic = "=0.14.6"
futures = "=0.3.31"
