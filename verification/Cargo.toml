[package]
name = "faerie"
version = "0.1.0"
edition = "2021"
publish = false

[dependencies]
goblin = "0.1"
indexmap = "1"
scroll = "0.10"
string-interner = "0.7"
target-lexicon = "0.9"
