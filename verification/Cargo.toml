[package]
name = "macho_writer"
version = "0.1.0"
edition = "2021"
publish = false

[dependencies]
goblin = "=0.0.13"
scroll = "=0.8.0"
ordermap = "=0.3.5"
string-interner = "=0.6.4"
failure = "=0.1.8"
