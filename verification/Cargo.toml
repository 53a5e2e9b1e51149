[package]
name = "snmp_message"
version = "0.1.0"
edition = "2021"
publish = false

[dependencies]
simple_asn1 = "0.6"
rand = "0.8"
