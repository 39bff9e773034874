[package]
name = "fog_ledger"
version = "0.1.0"
edition = "2021"
publish = false

[dependencies]
diesel = { version = "2.2.12", default-features = false, features = ["postgres_backend"] }
grpcio = { version = "0.9.1", default-features = false, features = ["protobuf-codec"] }
