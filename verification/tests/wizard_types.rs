use vm_curator::wizard_types::{DiskImageFormat, GroupChoice, NicConfig};

fn groups() -> Vec<String> {
    vec!["Linux".to_string(), "Windows".to_string()]
}

#[test]
fn group_choice_label_and_target_name() {
    assert_eq!(GroupChoice::Default.label(), "Default (OS category)");
    assert_eq!(GroupChoice::Default.target_name(), None);
    assert_eq!(GroupChoice::Existing("Linux".to_string()).label(), "Linux");
    assert_eq!(
        GroupChoice::Existing("Linux".to_string()).target_name(),
        Some("Linux")
    );
    assert_eq!(GroupChoice::New("Staging".to_string()).label(), "Staging");
    assert_eq!(
        GroupChoice::New("Staging".to_string()).target_name(),
        Some("Staging")
    );
}

#[test]
fn group_choice_next_cycles_through_existing_groups_then_wraps() {
    let g = groups();
    assert_eq!(
        GroupChoice::Default.next(&g),
        GroupChoice::Existing("Linux".to_string())
    );
    assert_eq!(
        GroupChoice::Existing("Linux".to_string()).next(&g),
        GroupChoice::Existing("Windows".to_string())
    );
    assert_eq!(
        GroupChoice::Existing("Windows".to_string()).next(&g),
        GroupChoice::Default
    );
}

#[test]
fn group_choice_prev_cycles_backward_then_wraps() {
    let g = groups();
    assert_eq!(
        GroupChoice::Default.prev(&g),
        GroupChoice::Existing("Windows".to_string())
    );
    assert_eq!(
        GroupChoice::Existing("Windows".to_string()).prev(&g),
        GroupChoice::Existing("Linux".to_string())
    );
    assert_eq!(
        GroupChoice::Existing("Linux".to_string()).prev(&g),
        GroupChoice::Default
    );
}

#[test]
fn group_choice_next_and_prev_with_no_groups_stay_default() {
    assert_eq!(GroupChoice::Default.next(&[]), GroupChoice::Default);
    assert_eq!(GroupChoice::Default.prev(&[]), GroupChoice::Default);
}

#[test]
fn group_choice_new_cycles_from_the_start_like_default() {
    let g = groups();
    assert_eq!(
        GroupChoice::New("Custom".to_string()).next(&g),
        GroupChoice::Existing("Linux".to_string())
    );
}

#[test]
fn max_editor_field_matches_visible_rows() {
    let none = NicConfig {
        backend: "none".to_string(),
        ..Default::default()
    };
    assert!(!none.show_mac());
    assert_eq!(none.max_editor_field(), 1); // adapter, backend only

    let user = NicConfig {
        backend: "user".to_string(),
        ..Default::default()
    };
    assert!(user.show_mac());
    assert!(user.show_port_forwards());
    assert!(!user.is_bridge());
    assert_eq!(user.max_editor_field(), 3); // + mac + forwards

    let bridge = NicConfig {
        backend: "bridge".to_string(),
        bridge_name: Some("vmc-lan".to_string()),
        ..Default::default()
    };
    assert!(bridge.show_mac());
    assert!(!bridge.show_port_forwards());
    assert!(bridge.is_bridge());
    assert_eq!(bridge.max_editor_field(), 3); // + mac + bridge

    let passt = NicConfig {
        backend: "passt".to_string(),
        ..Default::default()
    };
    assert_eq!(passt.max_editor_field(), 3); // + mac + forwards
}

#[test]
fn backend_display_and_describe_cover_all_backends() {
    let bridge = NicConfig {
        model: "e1000".to_string(),
        backend: "bridge".to_string(),
        bridge_name: Some("vmc-lan".to_string()),
        ..Default::default()
    };
    assert_eq!(bridge.backend_display(), "bridge (vmc-lan)");
    assert_eq!(bridge.describe(), "e1000 (bridge (vmc-lan))");

    let no_bridge_name = NicConfig {
        backend: "bridge".to_string(),
        bridge_name: None,
        ..Default::default()
    };
    assert_eq!(no_bridge_name.backend_display(), "bridge (qemubr0)");

    let user = NicConfig {
        backend: "user".to_string(),
        ..Default::default()
    };
    assert_eq!(user.backend_display(), "user/SLIRP (NAT)");

    let none = NicConfig {
        backend: "none".to_string(),
        ..Default::default()
    };
    assert_eq!(none.backend_display(), "none");
}

fn stops_with_two_managed_networks() -> Vec<(String, Option<String>)> {
    vec![
        ("user".to_string(), None),
        ("passt".to_string(), None),
        ("bridge".to_string(), None),
        ("bridge".to_string(), Some("vmc-lan".to_string())),
        ("bridge".to_string(), Some("vmc-dmz".to_string())),
        ("none".to_string(), None),
    ]
}

#[test]
fn cycle_backend_steps_through_managed_networks_in_order() {
    let stops = stops_with_two_managed_networks();
    let default_bridge = Some("qemubr0".to_string());
    let mut nic = NicConfig::default(); // starts on "user"

    nic.cycle_backend(&stops, &default_bridge, 1);
    assert_eq!(nic.backend, "passt");

    nic.cycle_backend(&stops, &default_bridge, 1);
    assert_eq!(nic.backend, "bridge");
    assert_eq!(nic.bridge_name, Some("qemubr0".to_string()));

    nic.cycle_backend(&stops, &default_bridge, 1);
    assert_eq!(nic.backend, "bridge");
    assert_eq!(nic.bridge_name, Some("vmc-lan".to_string()));

    nic.cycle_backend(&stops, &default_bridge, 1);
    assert_eq!(nic.bridge_name, Some("vmc-dmz".to_string()));

    nic.cycle_backend(&stops, &default_bridge, 1);
    assert_eq!(nic.backend, "none");

    // Wraps back to "user".
    nic.cycle_backend(&stops, &default_bridge, 1);
    assert_eq!(nic.backend, "user");
}

#[test]
fn cycle_backend_reverse_from_managed_network_returns_to_generic_bridge() {
    let stops = stops_with_two_managed_networks();
    let default_bridge = Some("qemubr0".to_string());
    let mut nic = NicConfig {
        backend: "bridge".to_string(),
        bridge_name: Some("vmc-lan".to_string()),
        ..Default::default()
    };

    nic.cycle_backend(&stops, &default_bridge, -1);
    assert_eq!(nic.backend, "bridge");
    assert_eq!(nic.bridge_name, Some("qemubr0".to_string()));
}

#[test]
fn cycle_backend_on_unmatched_bridge_falls_back_to_generic_stop() {
    // bridge_name doesn't match any managed network (e.g. a manually
    // picked host bridge) — cycling forward should move on from the
    // generic "bridge" stop, not silently stay put.
    let stops = stops_with_two_managed_networks();
    let default_bridge = Some("qemubr0".to_string());
    let mut nic = NicConfig {
        backend: "bridge".to_string(),
        bridge_name: Some("virbr0".to_string()),
        ..Default::default()
    };

    nic.cycle_backend(&stops, &default_bridge, 1);
    assert_eq!(nic.backend, "bridge");
    assert_eq!(nic.bridge_name, Some("vmc-lan".to_string()));
}

#[test]
fn cycle_backend_reverse_reaches_user_when_default_bridge_matches_managed_network() {
    // Regression: when the "default" bridge (e.g. the first detected
    // system bridge) happens to be a managed network's bridge — very
    // common once any managed network is running — the generic
    // "bridge" stop and that network's stop used to resolve to the
    // same value, so cycling backward got stuck bouncing between them
    // and could never reach "user"/"passt"/"none" again.
    let stops = stops_with_two_managed_networks();
    let default_bridge = Some("vmc-lan".to_string()); // collides with a managed stop
    let mut nic = NicConfig::default(); // starts on "user"

    nic.cycle_backend(&stops, &default_bridge, 1); // -> passt
    nic.cycle_backend(&stops, &default_bridge, 1); // -> bridge (generic, resolves to vmc-lan)
    assert_eq!(nic.backend, "bridge");
    assert_eq!(nic.bridge_name, Some("vmc-lan".to_string()));

    // Cycling further forward must still reach vmc-dmz, none, and
    // wrap back to user — none of these stops are skipped or looped.
    nic.cycle_backend(&stops, &default_bridge, 1); // -> vmc-dmz
    assert_eq!(nic.bridge_name, Some("vmc-dmz".to_string()));
    nic.cycle_backend(&stops, &default_bridge, 1); // -> none
    assert_eq!(nic.backend, "none");
    nic.cycle_backend(&stops, &default_bridge, 1); // wraps -> user
    assert_eq!(nic.backend, "user");

    // And reverse from the collision point must reach "user" in one
    // step, not bounce back and forth between the two colliding stops.
    nic.cycle_backend(&stops, &default_bridge, 1); // -> passt
    nic.cycle_backend(&stops, &default_bridge, 1); // -> bridge (vmc-lan)
    nic.cycle_backend(&stops, &default_bridge, -1); // -> passt
    assert_eq!(nic.backend, "passt");
    nic.cycle_backend(&stops, &default_bridge, -1); // -> user
    assert_eq!(nic.backend, "user");
}

#[test]
fn disk_image_format_strings_match_qemu_and_filenames() {
    assert_eq!(DiskImageFormat::Qcow2.as_str(), "qcow2");
    assert_eq!(DiskImageFormat::Qcow2.extension(), "qcow2");
    assert_eq!(DiskImageFormat::Raw.as_str(), "raw");
    assert_eq!(DiskImageFormat::Raw.extension(), "raw");
}

#[test]
fn disk_image_format_toggles_between_supported_formats() {
    assert_eq!(DiskImageFormat::Qcow2.toggle(), DiskImageFormat::Raw);
    assert_eq!(DiskImageFormat::Raw.toggle(), DiskImageFormat::Qcow2);
}

#[test]
fn disk_image_format_parses_qemu_formats_case_insensitively() {
    assert_eq!(
        DiskImageFormat::from_qemu_format("QCOW2"),
        Some(DiskImageFormat::Qcow2)
    );
    assert_eq!(
        DiskImageFormat::from_qemu_format("qcow"),
        Some(DiskImageFormat::Qcow2)
    );
    assert_eq!(
        DiskImageFormat::from_qemu_format("RAW"),
        Some(DiskImageFormat::Raw)
    );
    assert_eq!(DiskImageFormat::from_qemu_format("vmdk"), None);
}

#[test]
fn disk_image_format_parses_supported_extensions() {
    assert_eq!(
        DiskImageFormat::from_path("/vms/debian.QCOW2"),
        Some(DiskImageFormat::Qcow2)
    );
    assert_eq!(
        DiskImageFormat::from_path("/vms/debian.img"),
        Some(DiskImageFormat::Raw)
    );
    assert_eq!(
        DiskImageFormat::from_path("/vms/debian.vmdk"),
        None
    );
}
