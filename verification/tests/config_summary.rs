use vm_curator::config_summary::{config_lines, ConfigLine, ConfigSummary, DiskSummary};
use vm_curator::vm::qemu_config::{NetworkBackend, NetworkConfig, PortForward, PortProtocol};

fn summary() -> ConfigSummary {
    ConfigSummary {
        architecture: "x86_64".to_string(),
        command: "qemu-system-x86_64".to_string(),
        cpu_cores: 4,
        cpu_model: Some("host".to_string()),
        memory: "4096 MB (4.0 GB)".to_string(),
        machine: Some("q35".to_string()),
        enable_kvm: true,
        uefi: false,
        tpm: true,
        gl_acceleration: true,
        disks: vec![DiskSummary {
            path: "/vms/debian/disk.qcow2".to_string(),
            format: "Qcow2".to_string(),
            interface: "virtio".to_string(),
            role: "Primary".to_string(),
            usage: Some(("3.1 GiB".to_string(), "64 GiB".to_string())),
        }],
        networks: vec![NetworkConfig {
            model: "virtio".to_string(),
            backend: NetworkBackend::User,
            port_forwards: vec![PortForward { protocol: PortProtocol::Tcp, host_port: 2222, guest_port: 22 }],
            mac_address: Some("52:54:00:12:34:56".to_string()),
        }],
    }
}

fn field(l: &str, v: &str) -> ConfigLine {
    ConfigLine::Field(l.to_string(), v.to_string())
}

#[test]
fn summary_lists_hardware_disks_and_network() {
    let lines = config_lines(&summary());
    assert_eq!(
        lines,
        vec![
            ConfigLine::Heading("Hardware".to_string()),
            field("Architecture: ", "x86_64 (qemu-system-x86_64)"),
            field("CPU: ", "4 cores (host)"),
            field("Memory: ", "4096 MB (4.0 GB)"),
            field("Machine: ", "q35"),
            field("Features: ", "KVM, TPM, 3D Accel"),
            ConfigLine::Blank,
            ConfigLine::Heading("Disks".to_string()),
            ConfigLine::Plain("  /vms/debian/disk.qcow2 — Qcow2, virtio [Primary] (3.1 GiB used / 64 GiB capacity)".to_string()),
            ConfigLine::Blank,
            ConfigLine::Heading("Network".to_string()),
            ConfigLine::Plain("  NIC: virtio — user/SLIRP (NAT) (MAC 52:54:00:12:34:56)".to_string()),
            ConfigLine::Forward(PortForward { protocol: PortProtocol::Tcp, host_port: 2222, guest_port: 22 }),
        ]
    );
}

#[test]
fn summary_of_a_bare_configuration() {
    let mut c = summary();
    c.cpu_model = None;
    c.machine = None;
    c.enable_kvm = false;
    c.tpm = false;
    c.gl_acceleration = false;
    c.disks.clear();
    c.networks.clear();
    let lines = config_lines(&c);
    assert_eq!(lines[2], field("CPU: ", "4 cores"));
    assert_eq!(lines[4], field("Features: ", "None"));
    assert_eq!(lines[7], ConfigLine::Muted("  (none)".to_string()));
    assert_eq!(lines[10], ConfigLine::Muted("  (none)".to_string()));
    assert_eq!(lines.len(), 11);
}

#[test]
fn several_nics_are_numbered() {
    let mut c = summary();
    c.disks[0].usage = None;
    c.networks.push(NetworkConfig {
        model: "e1000".to_string(),
        backend: NetworkBackend::Bridge("br0".to_string()),
        port_forwards: vec![],
        mac_address: None,
    });
    let lines = config_lines(&c);
    assert_eq!(lines[8], ConfigLine::Plain("  /vms/debian/disk.qcow2 — Qcow2, virtio [Primary]".to_string()));
    assert_eq!(lines[11], ConfigLine::Plain("  NIC 1: virtio — user/SLIRP (NAT) (MAC 52:54:00:12:34:56)".to_string()));
    assert_eq!(lines[13], ConfigLine::Plain("  NIC 2: e1000 — bridge: br0".to_string()));
    assert_eq!(lines.len(), 14);
}
