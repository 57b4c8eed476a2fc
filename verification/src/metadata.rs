//! OS profile data the creation wizard starts from.

use vstd::prelude::*;

verus! {

/// Recommended QEMU settings for an OS.
#[derive(Debug, Clone)]
pub struct QemuProfile {
    pub emulator: String,
    pub memory_mb: u32,
    pub cpu_cores: u32,
    pub cpu_model: Option<String>,
    pub machine: Option<String>,
    pub vga: String,
    pub audio: Vec<String>,
    pub network_model: String,
    pub network_backend: String,
    pub disk_interface: String,
    pub enable_kvm: bool,
    pub uefi: bool,
    pub tpm: bool,
    pub rtc_localtime: bool,
    pub usb_tablet: bool,
    pub display: String,
    pub extra_args: Vec<String>,
    pub disk_size_gb: u32,
}

} // verus!
