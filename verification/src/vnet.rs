//! Managed virtual networks.

use vstd::prelude::*;

verus! {

/// Kind of a managed virtual network: NAT, or isolated (host-only).
#[derive(Debug, Clone, Copy, PartialEq, Eq, Structural)]
pub enum VNetKind {
    Nat,
    Isolated,
}

/// A managed virtual network.
#[derive(Debug, Clone, PartialEq, Eq)]
pub struct VirtualNetwork {
    pub name: String,
    pub kind: VNetKind,
    pub subnet: String,
    pub dhcp: bool,
}

} // verus!
