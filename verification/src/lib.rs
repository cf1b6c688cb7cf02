//! Microvm provisioning: configuration, the VM registry, network and
//! Firecracker request plans, and the decision logic that drives a VM
//! through its lifecycle.

pub mod text;
pub mod config;
pub mod state;
pub mod vm;
pub mod ssh;
pub mod network;
pub mod firecracker;
pub mod cli;
