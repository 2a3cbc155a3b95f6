[package]
name = "ethercat_master"
version = "0.1.0"
edition = "2021"
publish = false

[dependencies]
bit_field = "*"
bitfield = "*"
embedded-hal = "0.2"
fugit = "*"
heapless = "*"
log = "*"
nb = "*"
num_enum = { version = "*", default-features = false }
void = { version = "*", default-features = false }
