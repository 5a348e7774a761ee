[package]
name = "todo_shell"
version = "0.1.0"
edition = "2021"
publish = false

[dependencies]
diesel = { version = "*", features = ["postgres"] }
dotenvy = "*"
rpassword = "*"
