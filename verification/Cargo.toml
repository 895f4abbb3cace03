[package]
name = "leptos_markdown"
version = "0.1.0"
edition = "2021"
publish = false

[dependencies]
syntect = { version = "5", default-features = false, features = ["default-fancy"] }
regex = "1"
once_cell = "1"
markdown = "*"
leptos = { version = "0.6", features = ["csr"] }
log = "0.4"
console_log = "1"
console_error_panic_hook = "0.1"
