[package]
name = "syncstorage"
version = "0.1.0"
edition = "2021"
publish = false

[dependencies]
chrono = "0.4"
diesel = { version = "1.4", features = ["r2d2"] }
futures = "0.1"
google-spanner1 = "1.0"
hyper = "0.10"
tokio-threadpool = "0.1"
yup-oauth2 = "1.0"
