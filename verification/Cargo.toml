[package]
name = "kanji_number_parser"
version = "0.1.0"
edition = "2021"

[dependencies]
failure = "0.1"
num-bigint = "0.4"
num-traits = "0.2"
