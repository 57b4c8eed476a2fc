use vm_curator::management::{
    centered_rect, extract_display_from_script, get_cpu_model_options, get_display_options,
    get_machine_type_options, get_menu_items, menu_item_count, Area, MenuAction, MenuFlags,
};
use vm_curator::vm::qemu_config::QemuEmulator;

fn flags(multi: bool, single: bool, gl: bool) -> MenuFlags {
    MenuFlags { multi_gpu_passthrough: multi, single_gpu_passthrough: single, gl_acceleration: gl }
}

#[test]
fn menu_lists_general_items_then_dangerous_ones() {
    let items = get_menu_items(&flags(false, false, false));
    assert_eq!(items.len(), 15);
    assert_eq!(items[0].action, MenuAction::BootOptions);
    assert_eq!(items[0].name, "Boot Options");
    assert_eq!(items[4].name, "Passthrough Disks");
    assert_eq!(items[6].action, MenuAction::NetworkSettings);
    assert_eq!(items[7].action, MenuAction::ChangeDisplay);
    assert_eq!(items[8].name, "3D Acceleration (non-pass-through)");
    assert_eq!(items[8].description, "Currently OFF - toggle on");
    assert_eq!(items[9].action, MenuAction::EditNotes);
    assert_eq!(items[10].action, MenuAction::RenameVm);
    assert_eq!(items[10].name, "Rename VM");
    assert_eq!(items[11].action, MenuAction::StopVm);
    assert_eq!(items[12].action, MenuAction::ResetVm);
    assert_eq!(items[13].action, MenuAction::DeleteVm);
    assert_eq!(items[13].name, "Delete VM");
    assert_eq!(items[14].action, MenuAction::EditRawConfig);
    assert_eq!(items[14].name, "Edit Raw Configuration");
    assert!(items.iter().all(|i| i.action != MenuAction::EditSystem));
}

#[test]
fn menu_adds_enabled_gpu_passthrough_items() {
    let items = get_menu_items(&flags(true, true, true));
    assert_eq!(items.len(), 17);
    assert_eq!(items[7].action, MenuAction::MultiGpuPassthrough);
    assert_eq!(items[8].action, MenuAction::SingleGpuPassthrough);
    assert_eq!(items[10].description, "Currently ON - toggle off");
    let items = get_menu_items(&flags(false, true, false));
    assert_eq!(items.len(), 16);
    assert_eq!(items[7].name, "Single GPU Passthrough");
}

#[test]
fn menu_item_count_defaults_to_six() {
    assert_eq!(menu_item_count(None), 6);
    assert_eq!(menu_item_count(Some(&flags(true, false, false))), 16);
}

#[test]
fn display_options_describe_known_backends() {
    let opts = get_display_options(&["sdl".to_string(), "dbus".to_string(), "gtk".to_string()]);
    assert_eq!(
        opts,
        vec![
            ("sdl".to_string(), "SDL - Better for 3D acceleration".to_string()),
            ("dbus".to_string(), "dbus display".to_string()),
            ("gtk".to_string(), "GTK - Default windowed display".to_string()),
        ]
    );
    assert!(get_display_options(&[]).is_empty());
}

#[test]
fn cpu_and_machine_choices_follow_the_architecture() {
    let x86 = get_cpu_model_options(None);
    assert_eq!(x86.len(), 11);
    assert_eq!(x86[0].0, "host");
    assert_eq!(x86[10].0, "core2duo");
    assert_eq!(get_cpu_model_options(Some(&QemuEmulator::I386)), x86);
    let machines = get_machine_type_options(Some(&QemuEmulator::Aarch64));
    assert_eq!(machines[0], ("virt".to_string(), "Generic virtual ARM platform (recommended)".to_string()));
    let ppc = get_machine_type_options(Some(&QemuEmulator::Ppc));
    assert_eq!(ppc[1].0, "mac99");
    assert_eq!(get_machine_type_options(None)[0].0, "q35");
}

#[test]
fn display_is_read_from_the_launch_script() {
    assert_eq!(extract_display_from_script("qemu -m 2G -display sdl,gl=on \\\n -vga virtio"), "sdl");
    assert_eq!(extract_display_from_script("qemu -display gtk -m 2G"), "gtk");
    assert_eq!(extract_display_from_script("qemu -display spice-app\\"), "spice-app");
    assert_eq!(extract_display_from_script("qemu -display none"), "none");
    assert_eq!(extract_display_from_script("qemu -m 2G"), "gtk");
    assert_eq!(extract_display_from_script("qemu -display "), "");
}

#[test]
fn centered_rect_centers_in_the_area() {
    let r = centered_rect(20, 10, Area { x: 5, y: 3, width: 60, height: 30 });
    assert_eq!(r, Area { x: 25, y: 13, width: 20, height: 10 });
    let r = centered_rect(80, 40, Area { x: 0, y: 0, width: 60, height: 30 });
    assert_eq!(r, Area { x: 0, y: 0, width: 80, height: 40 });
    let r = centered_rect(100, 10, Area { x: 65500, y: 0, width: 0, height: 0 });
    assert_eq!(r, Area { x: 65500, y: 0, width: 35, height: 10 });
}
