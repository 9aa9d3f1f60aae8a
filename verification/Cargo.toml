[package]
name = "geozero_postgis"
version = "0.1.0"
edition = "2021"
publish = false

[dependencies]
postgis_diesel = "*"
diesel = { version = "2", default-features = false, features = ["postgres_backend"] }
