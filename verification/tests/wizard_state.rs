use vm_curator::metadata::QemuProfile;
use vm_curator::vm::qemu_config::{NetworkBackend, NetworkConfig, PortForward, PortProtocol};
use vm_curator::vnet::{VNetKind, VirtualNetwork};
use vm_curator::wizard_types::{
    DiskImageFormat, GroupChoice, ImportDiskAction, ImportStep, ImportWizardState, NicConfig,
    VNetEditorState, WizardDiskSource, WizardQemuConfig, WizardStep,
};

fn profile(extra_args: Vec<&str>) -> QemuProfile {
    QemuProfile {
        emulator: "qemu-system-aarch64".to_string(),
        memory_mb: 4096,
        cpu_cores: 4,
        cpu_model: Some("max".to_string()),
        machine: None,
        vga: "virtio".to_string(),
        audio: vec!["ich9-intel-hda".to_string()],
        network_model: "virtio".to_string(),
        network_backend: "passt".to_string(),
        disk_interface: "virtio".to_string(),
        enable_kvm: false,
        uefi: true,
        tpm: true,
        rtc_localtime: false,
        usb_tablet: false,
        display: "sdl".to_string(),
        extra_args: extra_args.into_iter().map(|s| s.to_string()).collect(),
        disk_size_gb: 64,
    }
}

#[test]
fn wizard_config_from_profile_copies_settings() {
    let cfg = WizardQemuConfig::from_profile(&profile(vec!["-usb"]));
    assert_eq!(cfg.emulator, "qemu-system-aarch64");
    assert_eq!(cfg.memory_mb, 4096);
    assert_eq!(cfg.cpu_cores, 4);
    assert_eq!(cfg.cpu_model.as_deref(), Some("max"));
    assert_eq!(cfg.machine, None);
    assert_eq!(cfg.audio, vec!["ich9-intel-hda".to_string()]);
    assert_eq!(cfg.network_adapters.len(), 1);
    assert_eq!(cfg.network_adapters[0].model, "virtio");
    assert_eq!(cfg.network_adapters[0].backend, "passt");
    assert!(cfg.network_adapters[0].port_forwards.is_empty());
    assert!(!cfg.gl_acceleration);
    assert!(cfg.uefi && cfg.tpm && !cfg.enable_kvm);
    assert_eq!(cfg.display, "sdl");
    assert!(cfg.bios_path.is_none());
}

#[test]
fn wizard_config_from_profile_detects_gl_arguments() {
    assert!(WizardQemuConfig::from_profile(&profile(vec!["-device", "virtio-vga-gl"])).gl_acceleration);
    assert!(WizardQemuConfig::from_profile(&profile(vec!["-display", "sdl,gl=on"])).gl_acceleration);
    assert!(!WizardQemuConfig::from_profile(&profile(vec!["-display", "sdl,gl=off"])).gl_acceleration);
}

#[test]
fn wizard_config_default_values() {
    let cfg = WizardQemuConfig::default();
    assert_eq!(cfg.emulator, "qemu-system-x86_64");
    assert_eq!(cfg.memory_mb, 2048);
    assert_eq!(cfg.cpu_cores, 2);
    assert_eq!(cfg.machine.as_deref(), Some("q35"));
    assert_eq!(cfg.audio, vec!["intel-hda".to_string(), "hda-duplex".to_string()]);
    assert_eq!(cfg.network_adapters[0], NicConfig::default());
    assert!(cfg.enable_kvm && cfg.usb_tablet && !cfg.gl_acceleration);
}

#[test]
fn wizard_steps_walk_forward_and_back() {
    let mut step = WizardStep::SelectOs;
    let mut numbers = vec![step.number()];
    while let Some(next) = step.next() {
        assert_eq!(next.prev(), Some(step.clone()));
        step = next;
        numbers.push(step.number());
    }
    assert_eq!(numbers, vec![1, 2, 3, 4, 5]);
    assert_eq!(step, WizardStep::Confirm);
    assert_eq!(step.title(), "Review & Create");
    assert_eq!(WizardStep::SelectOs.prev(), None);
    assert_eq!(WizardStep::SelectOs.title(), "Select Operating System");
}

#[test]
fn disk_source_cycles_both_ways() {
    let s = WizardDiskSource::NewImage;
    assert_eq!(s.next(), WizardDiskSource::ExistingImage);
    assert_eq!(s.next().next(), WizardDiskSource::PhysicalDevice);
    assert_eq!(s.next().next().next(), s);
    assert_eq!(s.prev(), WizardDiskSource::PhysicalDevice);
    assert_eq!(s.next().prev(), s);
    assert_eq!(WizardDiskSource::ExistingImage.label(), "Use Existing");
    assert_eq!(WizardDiskSource::PhysicalDevice.label(), "Physical Disk");
}

#[test]
fn disk_image_format_descriptions() {
    assert_eq!(DiskImageFormat::Qcow2.summary(), "qcow2 (expandable)");
    assert_eq!(DiskImageFormat::Raw.description(), "raw (plain disk image, no snapshots)");
    assert_eq!(DiskImageFormat::Raw.storage_description(), "Plain sparse file (guest sees full size)");
    assert_eq!(DiskImageFormat::Qcow2.label(), "qcow2");
    assert_eq!(DiskImageFormat::from_path("/vms/disk.Img"), Some(DiskImageFormat::Raw));
    assert_eq!(DiskImageFormat::from_path("/vms/noext"), None);
    assert_eq!(DiskImageFormat::from_path("/vms/.qcow2"), None);
    assert_eq!(DiskImageFormat::from_lowercase_qemu_format("QCOW2"), None);
    assert_eq!(DiskImageFormat::from_extension("QCOW"), Some(DiskImageFormat::Qcow2));
}

#[test]
fn vnet_editor_tracks_unsaved_edits() {
    let mut fresh = VNetEditorState::new_network();
    assert!(!fresh.dirty());
    assert_eq!(fresh.subnet, "192.168.150.0/24");
    assert_eq!(fresh.kind, VNetKind::Nat);
    fresh.name.push_str("lab");
    assert!(fresh.dirty());

    let net = VirtualNetwork {
        name: "vmc-lan".to_string(),
        kind: VNetKind::Isolated,
        subnet: "10.0.0.0/24".to_string(),
        dhcp: false,
    };
    let mut ed = VNetEditorState::edit(&net);
    assert!(!ed.dirty());
    assert_eq!(ed.original_name.as_deref(), Some("vmc-lan"));
    assert_eq!(ed.field_focus, 1);
    ed.dhcp = true;
    assert!(ed.dirty());
    ed.dhcp = false;
    assert!(!ed.dirty());
    ed.kind = VNetKind::Nat;
    assert!(ed.dirty());
}

#[test]
fn nic_config_from_parsed_network() {
    let net = NetworkConfig {
        model: "virtio".to_string(),
        backend: NetworkBackend::Bridge("vmc-dmz".to_string()),
        port_forwards: vec![PortForward {
            protocol: PortProtocol::Tcp,
            host_port: 2222,
            guest_port: 22,
        }],
        mac_address: Some("52:54:00:12:34:56".to_string()),
    };
    let nic = NicConfig::from(&net);
    assert_eq!(nic.backend, "bridge");
    assert_eq!(nic.bridge_name.as_deref(), Some("vmc-dmz"));
    assert_eq!(nic.port_forwards.len(), 1);
    assert_eq!(nic.mac_address.as_deref(), Some("52:54:00:12:34:56"));
    assert_eq!(nic.describe(), "virtio (bridge (vmc-dmz))");

    let none = NicConfig::from(&NetworkConfig {
        model: "e1000".to_string(),
        backend: NetworkBackend::NoBackend,
        port_forwards: vec![],
        mac_address: None,
    });
    assert_eq!(none.backend, "none");
    assert_eq!(none.bridge_name, None);
    assert_eq!(none.max_editor_field(), 1);
}

#[test]
fn nic_with_unknown_backend_displays_it_verbatim() {
    let nic = NicConfig {
        backend: "vde".to_string(),
        ..Default::default()
    };
    assert_eq!(nic.backend_display(), "vde");
    assert_eq!(nic.max_editor_field(), 2);
}

#[test]
fn cycle_backend_with_no_stops_leaves_nic_unchanged() {
    let mut nic = NicConfig::default();
    nic.cycle_backend(&[], &None, 1);
    assert_eq!(nic, NicConfig::default());
}

#[test]
fn group_choice_cycle_round_trips() {
    let g = vec!["Linux".to_string(), "Windows".to_string(), "BSD".to_string()];
    for c in [
        GroupChoice::Default,
        GroupChoice::Existing("Linux".to_string()),
        GroupChoice::Existing("BSD".to_string()),
    ] {
        assert_eq!(c.next(&g).prev(&g), c);
        assert_eq!(c.prev(&g).next(&g), c);
    }
    assert_eq!(GroupChoice::Existing("Gone".to_string()).next(&g), GroupChoice::Default);
}

#[test]
fn import_wizard_defaults() {
    let s = ImportWizardState::default();
    assert_eq!(s.step, ImportStep::SelectSource);
    assert_eq!(s.disk_action, ImportDiskAction::Symlink);
    assert_eq!(s.group_choice, GroupChoice::Default);
    assert!(s.discovered_vms.is_empty() && s.source.is_none());
}

#[test]
fn group_choice_next_from_an_unknown_group_is_default() {
    let groups = vec!["Linux".to_string(), "Windows".to_string()];
    assert_eq!(GroupChoice::Existing("Gone".to_string()).next(&groups), GroupChoice::Default);
    assert_eq!(
        GroupChoice::New("Lab".to_string()).next(&groups),
        GroupChoice::Existing("Linux".to_string())
    );
}

#[test]
fn cycle_backend_forward_then_back_over_the_given_stops() {
    let stops = vec![
        ("user".to_string(), None),
        ("bridge".to_string(), None),
        ("bridge".to_string(), Some("vmc-lan".to_string())),
        ("none".to_string(), None),
    ];
    let default_bridge = Some("br0".to_string());
    let mut nic = NicConfig::default();
    nic.backend = "bridge".to_string();
    nic.bridge_name = Some("vmc-lan".to_string());
    let start = nic.clone();
    nic.cycle_backend(&stops, &default_bridge, 1);
    assert_eq!(nic.backend, "none");
    nic.cycle_backend(&stops, &default_bridge, -1);
    assert_eq!(nic.backend, start.backend);
    assert_eq!(nic.bridge_name, start.bridge_name);
}
