use vm_curator::keys::Key;
use vm_curator::network_settings::{
    accept_mac, cycle_option, discard_nic_edit, handle_key, invalid_mac_message, is_valid_mac,
    mark_nic_edit_saved, set_mac, NsOutcome,
};
use vm_curator::vm::qemu_config::{PortForward, PortProtocol};
use vm_curator::wizard_types::{AddPfStep, NetworkSettingsState, NicConfig};

fn nic(model: &str, backend: &str) -> NicConfig {
    NicConfig {
        model: model.to_string(),
        backend: backend.to_string(),
        port_forwards: Vec::new(),
        bridge_name: None,
        mac_address: None,
    }
}

fn state(nics: Vec<NicConfig>) -> NetworkSettingsState {
    NetworkSettingsState {
        nics_baseline: nics.clone(),
        nics,
        active_nic: 0,
        list_cursor: 0,
        editing_nic: false,
        nic_snapshot: None,
        mac_edit_buffer: String::new(),
        editing_mac: false,
        selected_field: 0,
        editing_port_forwards: false,
        pf_selected: 0,
        adding_pf: None,
    }
}

fn stops() -> Vec<(String, Option<String>)> {
    vec![
        ("user".to_string(), None),
        ("passt".to_string(), None),
        ("bridge".to_string(), None),
        ("none".to_string(), None),
    ]
}

fn key(ns: &mut NetworkSettingsState, k: Key) -> NsOutcome {
    handle_key(ns, k, &stops(), &[])
}

#[test]
fn nic_list_navigation_and_close() {
    let mut ns = state(vec![nic("virtio", "user"), nic("e1000", "passt")]);
    assert_eq!(key(&mut ns, Key::Down), NsOutcome::Stay);
    assert_eq!(ns.list_cursor, 1);
    key(&mut ns, Key::Char('j'));
    assert_eq!(ns.list_cursor, 1);
    key(&mut ns, Key::Up);
    assert_eq!(ns.list_cursor, 0);
    assert_eq!(key(&mut ns, Key::Esc), NsOutcome::Close);
    assert_eq!(key(&mut ns, Key::Char('s')), NsOutcome::SaveAndClose);
}

#[test]
fn nic_list_add_opens_the_new_nic() {
    let mut ns = state(vec![nic("virtio", "user")]);
    key(&mut ns, Key::Char('a'));
    assert_eq!(ns.nics.len(), 2);
    assert_eq!(ns.nics[1], NicConfig::default());
    assert_eq!(ns.active_nic, 1);
    assert_eq!(ns.list_cursor, 1);
    assert!(ns.editing_nic);
    assert_eq!(ns.nic_snapshot, Some(NicConfig::default()));
    // Leaving the editor without changes drops the snapshot; the added NIC
    // is an unsaved change of the list.
    assert_eq!(key(&mut ns, Key::Esc), NsOutcome::Stay);
    assert!(!ns.editing_nic);
    assert_eq!(key(&mut ns, Key::Esc), NsOutcome::ConfirmDiscardNicList);
}

#[test]
fn nic_list_delete_keeps_at_least_one_nic() {
    let mut ns = state(vec![nic("virtio", "user"), nic("e1000", "passt")]);
    ns.list_cursor = 1;
    ns.active_nic = 1;
    key(&mut ns, Key::Char('d'));
    assert_eq!(ns.nics.len(), 1);
    assert_eq!(ns.list_cursor, 0);
    assert_eq!(ns.active_nic, 0);
    key(&mut ns, Key::Delete);
    assert_eq!(ns.nics.len(), 1);
}

#[test]
fn field_editor_cycles_model_and_backend() {
    let mut ns = state(vec![nic("virtio", "user")]);
    key(&mut ns, Key::Enter);
    assert!(ns.editing_nic);
    key(&mut ns, Key::Right);
    assert_eq!(ns.nics[0].model, "e1000");
    key(&mut ns, Key::Left);
    key(&mut ns, Key::Left);
    assert_eq!(ns.nics[0].model, "none");
    key(&mut ns, Key::Down);
    assert_eq!(ns.selected_field, 1);
    key(&mut ns, Key::Tab);
    assert_eq!(ns.nics[0].backend, "passt");
    // Esc with edits asks before discarding them.
    assert_eq!(key(&mut ns, Key::Esc), NsOutcome::ConfirmDiscardNicEdit);
    discard_nic_edit(&mut ns);
    assert_eq!(ns.nics[0], nic("virtio", "user"));
    assert!(!ns.editing_nic);
    assert_eq!(ns.nic_snapshot, None);
}

#[test]
fn field_editor_save_and_mac_actions() {
    let mut ns = state(vec![nic("virtio", "user")]);
    key(&mut ns, Key::Enter);
    assert_eq!(key(&mut ns, Key::Char('s')), NsOutcome::SaveNic);
    ns.selected_field = 2;
    assert_eq!(key(&mut ns, Key::Char('r')), NsOutcome::GenerateMac);
    set_mac(&mut ns, "52:54:00:12:34:56".to_string());
    assert_eq!(ns.nics[0].mac_address.as_deref(), Some("52:54:00:12:34:56"));
    key(&mut ns, Key::Char('c'));
    assert_eq!(ns.nics[0].mac_address, None);
    mark_nic_edit_saved(&mut ns);
    assert!(!ns.editing_nic);
    assert_eq!(ns.nics_baseline, ns.nics);
}

#[test]
fn mac_entry_accepts_valid_addresses_and_reports_others() {
    let mut ns = state(vec![nic("virtio", "user")]);
    key(&mut ns, Key::Enter);
    ns.selected_field = 2;
    key(&mut ns, Key::Enter);
    assert!(ns.editing_mac);
    for c in "52:54:ZZ:aB".chars() {
        key(&mut ns, Key::Char(c));
    }
    assert_eq!(ns.mac_edit_buffer, "52:54::aB");
    key(&mut ns, Key::Backspace);
    assert_eq!(ns.mac_edit_buffer, "52:54::a");
    // Not a valid address: the entry stays as typed, with a message.
    assert_eq!(
        key(&mut ns, Key::Enter),
        NsOutcome::InvalidMac("Invalid MAC address: 52:54::a".to_string())
    );
    assert!(ns.editing_mac);
    assert_eq!(ns.nics[0].mac_address, None);
    assert_eq!(invalid_mac_message("52:54::a"), "Invalid MAC address: 52:54::a");
    // A valid one (surrounding spaces trimmed) is taken in lowercase.
    ns.mac_edit_buffer = " 52:54:00:AB:CD:EF ".to_string();
    assert_eq!(key(&mut ns, Key::Enter), NsOutcome::Stay);
    assert_eq!(ns.nics[0].mac_address.as_deref(), Some("52:54:00:ab:cd:ef"));
    assert_eq!(ns.mac_edit_buffer, "52:54:00:ab:cd:ef");
    assert!(!ns.editing_mac);
    accept_mac(&mut ns, "52:54:00:01:02:03");
    assert_eq!(ns.nics[0].mac_address.as_deref(), Some("52:54:00:01:02:03"));
}

#[test]
fn mac_entry_is_capped_and_empty_clears() {
    let mut ns = state(vec![nic("virtio", "user")]);
    key(&mut ns, Key::Enter);
    ns.selected_field = 2;
    key(&mut ns, Key::Enter);
    for _ in 0..20 {
        key(&mut ns, Key::Char('a'));
    }
    assert_eq!(ns.mac_edit_buffer.len(), 17);
    ns.nics[0].mac_address = Some("52:54:00:00:00:01".to_string());
    ns.mac_edit_buffer = "   ".to_string();
    assert_eq!(key(&mut ns, Key::Enter), NsOutcome::Stay);
    assert_eq!(ns.nics[0].mac_address, None);
    assert!(!ns.editing_mac);
}

#[test]
fn port_forward_presets_and_deletion() {
    let mut ns = state(vec![nic("virtio", "user")]);
    key(&mut ns, Key::Enter);
    ns.selected_field = 3;
    key(&mut ns, Key::Enter);
    assert!(ns.editing_port_forwards);
    key(&mut ns, Key::Char('1'));
    key(&mut ns, Key::Char('1'));
    key(&mut ns, Key::Char('3'));
    assert_eq!(
        ns.nics[0].port_forwards,
        vec![
            PortForward { protocol: PortProtocol::Tcp, host_port: 2222, guest_port: 22 },
            PortForward { protocol: PortProtocol::Tcp, host_port: 8080, guest_port: 80 },
        ]
    );
    key(&mut ns, Key::Down);
    assert_eq!(ns.pf_selected, 1);
    key(&mut ns, Key::Char('d'));
    assert_eq!(ns.nics[0].port_forwards.len(), 1);
    assert_eq!(ns.pf_selected, 0);
    key(&mut ns, Key::Esc);
    assert!(!ns.editing_port_forwards);
}

#[test]
fn adding_a_rule_walks_through_the_steps() {
    let mut ns = state(vec![nic("virtio", "passt")]);
    key(&mut ns, Key::Enter);
    ns.selected_field = 3;
    key(&mut ns, Key::Enter);
    key(&mut ns, Key::Char('a'));
    assert_eq!(ns.adding_pf.as_ref().unwrap().step, AddPfStep::Protocol);
    key(&mut ns, Key::Right);
    assert_eq!(ns.adding_pf.as_ref().unwrap().protocol, PortProtocol::Udp);
    key(&mut ns, Key::Enter);
    // No host port yet: Enter stays on the host port.
    key(&mut ns, Key::Enter);
    assert_eq!(ns.adding_pf.as_ref().unwrap().step, AddPfStep::HostPort);
    for c in "5x3".chars() {
        key(&mut ns, Key::Char(c));
    }
    assert_eq!(ns.adding_pf.as_ref().unwrap().host_port_input, "53");
    key(&mut ns, Key::Enter);
    for c in "70000".chars() {
        key(&mut ns, Key::Char(c));
    }
    // 70000 is not a port.
    key(&mut ns, Key::Enter);
    assert!(ns.adding_pf.is_some());
    key(&mut ns, Key::Backspace);
    key(&mut ns, Key::Backspace);
    key(&mut ns, Key::Enter);
    assert!(ns.adding_pf.is_none());
    assert_eq!(
        ns.nics[0].port_forwards,
        vec![PortForward { protocol: PortProtocol::Udp, host_port: 53, guest_port: 700 }]
    );
}

#[test]
fn cycle_option_takes_any_step() {
    let opts = ["a", "b", "c"];
    let mut s = "a".to_string();
    cycle_option(&mut s, &opts, 5);
    assert_eq!(s, "c");
    let mut s = "b".to_string();
    cycle_option(&mut s, &opts, -4);
    assert_eq!(s, "a");
    let mut s = "zz".to_string();
    cycle_option(&mut s, &opts, 1);
    assert_eq!(s, "b");
}

#[test]
fn mac_addresses_must_be_canonical() {
    assert!(is_valid_mac("52:54:00:12:34:56"));
    assert!(is_valid_mac("52:54:00:AB:cd:EF"));
    assert!(!is_valid_mac("52:54:00:12:34"));
    assert!(!is_valid_mac("52-54-00-12-34-56"));
    assert!(!is_valid_mac("52:54:00:12:34:5g"));
    assert!(!is_valid_mac("5254:00:12:34:56:"));
    assert!(!is_valid_mac(""));
}
