[package]
name = "tuff-radical"
version = "0.1.0"
edition = "2021"
publish = false

[dependencies]
lz4_flex = { version = "=0.11.6", default-features = false, features = ["safe-encode", "safe-decode", "std"] }
sha2 = "=0.10.9"
serde = { version = "=1.0.229", features = ["derive"] }
serde_json = "=1.0.154"
clap = { version = "=4.6.7", features = ["derive"] }
anyhow = "=1.0.104"
time = { version = "=0.3.55", features = ["formatting", "macros"] }
x86_64 = { version = "=0.15.5", default-features = false, features = ["instructions"] }
uefi = "=0.41.0"
spin = "=0.9.9"
lazy_static = { version = "=1.5.1", features = ["spin_no_std"] }
pic8259 = { version = "=0.11.0", default-features = false, features = ["stable"] }
crossbeam-queue = { version = "=0.3.14", default-features = false, features = ["alloc"] }
linked_list_allocator = "=0.10.6"
