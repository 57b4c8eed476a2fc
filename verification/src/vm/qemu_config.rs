//! Network-related pieces of a VM's QEMU configuration.

use vstd::prelude::*;

verus! {

/// Transport protocol of a port forwarding rule.
#[derive(Debug, Clone, Copy, PartialEq, Eq, Structural)]
pub enum PortProtocol {
    Tcp,
    Udp,
}

/// A host-to-guest port forwarding rule (user and passt backends).
#[derive(Debug, Clone, Copy, PartialEq, Eq, Structural)]
pub struct PortForward {
    pub protocol: PortProtocol,
    pub host_port: u16,
    pub guest_port: u16,
}

/// The network backend of a NIC parsed from a launch script.
#[derive(Debug, Clone, PartialEq, Eq)]
pub enum NetworkBackend {
    User,
    Passt,
    Bridge(String),
    NoBackend,
}

/// One network adapter parsed from a launch script.
#[derive(Debug, Clone, PartialEq, Eq)]
pub struct NetworkConfig {
    pub model: String,
    pub backend: NetworkBackend,
    pub port_forwards: Vec<PortForward>,
    pub mac_address: Option<String>,
}

/// The QEMU system emulator (architecture) a VM runs under.
#[derive(Debug, Clone, PartialEq, Eq)]
pub enum QemuEmulator {
    X86_64,
    I386,
    Arm,
    Aarch64,
    Ppc,
    M68k,
    Other(String),
}

} // verus!
