//! Verified core of a backend that runs containers as KVM guests.
pub mod actions;
pub mod cgroups;
pub mod config_generator;
pub mod decimal;
pub mod frontend;
pub mod guest;
pub mod irq;
pub mod json;
pub mod text;
