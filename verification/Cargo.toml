[package]
name = "regex_parser"
version = "0.1.0"
edition = "2021"
publish = false

[dependencies]
regex = "0.1"
log = "0.3"
syslog-ng-common = "*"
