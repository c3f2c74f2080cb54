[package]
name = "minishell"
version = "0.1.0"
edition = "2021"
publish = false

[dependencies]
shlex = "1"
pathsearch = "0.2"
crossterm = "*"
