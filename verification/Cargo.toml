[package]
name = "leptos_wasi"
version = "0.3.1"
edition = "2021"
publish = false

[dependencies]
axum-core = "=0.5.6"
bytes = "=1.12.1"
futures = "=0.3.34"
http = "=1.5.0"
http-body = "=1.1.0"
http-body-util = "=0.1.5"
hydration_context = "=0.3.2"
leptos = { version = "=0.8.23", features = ["ssr", "nonce"] }
leptos_integration_utils = "=0.8.9"
leptos_meta = { version = "=0.8.7", features = ["ssr"] }
leptos_router = { version = "=0.8.17", features = ["ssr"] }
mime_guess = "=2.0.5"
routefinder = "=0.5.4"
server_fn = { version = "=0.8.13", features = ["generic", "axum-no-default"] }
thiserror = "=2.0.21"
throw_error = "=0.3.1"
wasi = "=0.13.3"
wasip3 = { version = "=0.6.0", features = ["http-compat"] }
