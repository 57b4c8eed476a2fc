//! VM configuration types the wizard and screen state refer to.

pub mod qemu_config;
