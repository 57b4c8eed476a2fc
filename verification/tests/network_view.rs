use vm_curator::network_view::{
    adding_rows, bridge_status, field_line, join, nic_editor_rows, nic_list_rows, pad_right,
    BridgeCaps, FieldRow, StatusKind,
};
use vm_curator::vm::qemu_config::{PortForward, PortProtocol};
use vm_curator::wizard_types::{AddPfStep, AddingPortForward, NetworkSettingsState, NicConfig};

fn nic(model: &str, backend: &str) -> NicConfig {
    NicConfig {
        model: model.to_string(),
        backend: backend.to_string(),
        port_forwards: Vec::new(),
        bridge_name: None,
        mac_address: None,
    }
}

fn state(nics: Vec<NicConfig>) -> NetworkSettingsState {
    NetworkSettingsState {
        nics_baseline: nics.clone(),
        nics,
        active_nic: 0,
        list_cursor: 0,
        editing_nic: true,
        nic_snapshot: None,
        mac_edit_buffer: String::new(),
        editing_mac: false,
        selected_field: 0,
        editing_port_forwards: false,
        pf_selected: 0,
        adding_pf: None,
    }
}

#[test]
fn padding_matches_width_formatting() {
    assert_eq!(pad_right("MAC:", 12), format!("{:12}", "MAC:"));
    assert_eq!(pad_right("héllo", 8), format!("{:8}", "héllo"));
    assert_eq!(pad_right("a-very-long-value", 5), "a-very-long-value");
    assert_eq!(pad_right("", 0), "");
}

#[test]
fn join_puts_the_separator_between_parts() {
    assert_eq!(join(&[], ", "), "");
    assert_eq!(join(&["br0".to_string()], ", "), "br0");
    assert_eq!(join(&["br0".to_string(), "virbr0".to_string()], ", "), "br0, virbr0");
}

#[test]
fn field_lines_show_the_hint_only_with_focus() {
    let row = FieldRow {
        label: "Adapter:".to_string(),
        value: "virtio".to_string(),
        selected: true,
        hint: "[←/→/Tab] cycle".to_string(),
    };
    let (p, l, v, h) = field_line(&row);
    assert_eq!(p, "> ");
    assert_eq!(l, format!("{:12}", "Adapter:"));
    assert_eq!(v, format!("{:20}", "virtio"));
    assert_eq!(h, "[←/→/Tab] cycle");
    let unfocused = FieldRow { selected: false, ..row };
    let (p, _, _, h) = field_line(&unfocused);
    assert_eq!(p, "  ");
    assert_eq!(h, "");
}

#[test]
fn editor_rows_follow_the_backend() {
    let mut ns = state(vec![nic("virtio", "user"), nic("e1000", "bridge")]);
    ns.nics[0].port_forwards.push(PortForward { protocol: PortProtocol::Tcp, host_port: 2222, guest_port: 22 });
    ns.selected_field = 3;
    let r = nic_editor_rows(&ns);
    assert_eq!(r.header, "Configure NIC 1 of 2");
    assert_eq!(r.adapter.value, "virtio");
    assert!(!r.adapter.selected);
    assert_eq!(r.backend.value, "user/SLIRP (NAT)");
    let mac = r.mac.unwrap();
    assert_eq!(mac.value, "(auto)");
    assert_eq!(mac.hint, "");
    let fourth = r.fourth.unwrap();
    assert_eq!(fourth.label, "Forwards:");
    assert_eq!(fourth.value, "1 rule(s)");
    assert_eq!(fourth.hint, "[Enter] edit");

    ns.active_nic = 1;
    ns.selected_field = 2;
    ns.editing_mac = true;
    ns.mac_edit_buffer = "52:54".to_string();
    let r = nic_editor_rows(&ns);
    assert_eq!(r.header, "Configure NIC 2 of 2");
    let mac = r.mac.unwrap();
    assert_eq!(mac.value, "52:54_");
    assert_eq!(mac.hint, "[Enter] save  [Esc] cancel");
    let fourth = r.fourth.unwrap();
    assert_eq!(fourth.label, "Bridge:");
    assert_eq!(fourth.value, "qemubr0");

    let ns = state(vec![nic("none", "none")]);
    let r = nic_editor_rows(&ns);
    assert!(r.mac.is_none());
    assert!(r.fourth.is_none());
    assert_eq!(r.backend.value, "none");
}

#[test]
fn nic_list_rows_number_the_nics() {
    let mut ns = state(vec![nic("virtio", "user"), nic("e1000", "bridge")]);
    ns.nics[1].bridge_name = Some("vmc-lan".to_string());
    ns.list_cursor = 1;
    let rows = nic_list_rows(&ns);
    assert_eq!(rows[0], ("  NIC 1: virtio (user/SLIRP (NAT))".to_string(), false));
    assert_eq!(rows[1], ("> NIC 2: e1000 (bridge (vmc-lan))".to_string(), true));
}

#[test]
fn adding_rows_show_placeholders() {
    let a = AddingPortForward {
        step: AddPfStep::HostPort,
        protocol: PortProtocol::Tcp,
        host_port_input: "80".to_string(),
        guest_port_input: String::new(),
    };
    let r = adding_rows(&a);
    assert!(!r.protocol_active && r.host_active && !r.guest_active);
    assert_eq!(r.protocol_hint, "");
    assert_eq!(r.host, "80");
    assert_eq!(r.guest, "_");
    let a = AddingPortForward { step: AddPfStep::Protocol, ..a };
    assert_eq!(adding_rows(&a).protocol_hint, " [←/→] toggle");
}

#[test]
fn bridge_status_guides_a_missing_setup() {
    let caps = BridgeCaps { helper_path: None, helper_configured: false, system_bridges: vec![] };
    let lines = bridge_status(&caps, &[]);
    let texts: Vec<&str> = lines.iter().map(|l| l.text.as_str()).collect();
    assert_eq!(
        texts,
        vec![
            "not found",
            "not configured",
            "none found",
            "",
            "  Setup needed:",
            "    Install: qemu-bridge-helper (part of QEMU)",
            "    Run: sudo setcap cap_net_admin+ep /usr/lib/qemu/qemu-bridge-helper",
            "    Create bridge: sudo ip link add qemubr0 type bridge",
            "    Enable:        sudo ip link set qemubr0 up",
        ]
    );
    assert_eq!(lines[0].label, "  bridge-helper: ");
    assert_eq!(lines[0].kind, StatusKind::Bad);
    assert_eq!(lines[3].kind, StatusKind::Blank);
    assert_eq!(lines[4].kind, StatusKind::Heading);
    assert_eq!(lines[8].kind, StatusKind::Guidance);
}

#[test]
fn bridge_status_when_everything_is_set_up() {
    let caps = BridgeCaps {
        helper_path: Some("/usr/lib/qemu/qemu-bridge-helper".to_string()),
        helper_configured: true,
        system_bridges: vec!["br0".to_string(), "virbr0".to_string()],
    };
    let lines = bridge_status(&caps, &["vmc-lan (NAT 10.0.0.0/24)".to_string()]);
    assert_eq!(lines.len(), 4);
    assert_eq!(lines[0].text, "found (/usr/lib/qemu/qemu-bridge-helper)");
    assert_eq!(lines[1].text, "configured (setuid/cap_net_admin)");
    assert_eq!(lines[2].text, "br0, virbr0");
    assert_eq!(lines[3].label, "  Managed nets:  ");
    assert_eq!(lines[3].text, "vmc-lan (NAT 10.0.0.0/24)");
    assert!(lines.iter().all(|l| l.kind == StatusKind::Good));
    // One missing piece brings the guidance for that piece only.
    let caps = BridgeCaps { helper_configured: false, ..caps };
    let lines = bridge_status(&caps, &[]);
    assert_eq!(lines.len(), 6);
    assert_eq!(lines[5].text, "    Run: sudo setcap cap_net_admin+ep /usr/lib/qemu/qemu-bridge-helper");
}
