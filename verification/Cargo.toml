[package]
name = "shiromana_cli"
version = "0.1.0"
edition = "2021"
publish = false

[dependencies]
tree_magic = "*"
url = "*"
clap = { version = "*", features = ["derive"] }
confy = "*"
console = "*"
dialoguer = "*"
directories-next = "*"
humansize = "*"
serde = { version = "*", features = ["derive"] }
