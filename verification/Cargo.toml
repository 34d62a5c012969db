[package]
name = "backend_kvm"
version = "0.1.0"
edition = "2021"
publish = false

[dependencies]
libcgroups = "=0.7.0"
nix = { version = "=0.29.0", features = ["process"] }
oci-spec = { version = "=0.10.0", features = ["runtime"] }
serde = { version = "=1.0.229", features = ["derive"] }
serde_json = "=1.0.154"
