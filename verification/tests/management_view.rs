use vm_curator::management::{get_menu_items, Area, MenuFlags};
use vm_curator::management_view::{
    boot_options, cpu_model_title, dialog_area, display_title, machine_type_title,
    management_title, menu_dialog_area, menu_rows, option_rows, snapshot_lines, snapshots_title,
    system_fields, SystemSettings,
};

fn pairs(v: &[(&str, &str)]) -> Vec<(String, String)> {
    v.iter().map(|(a, b)| (a.to_string(), b.to_string())).collect()
}

#[test]
fn option_rows_number_and_mark_the_current_choice() {
    let opts = pairs(&[("gtk", "GTK - Default windowed display"), ("sdl", "SDL - Better for 3D acceleration")]);
    let rows = option_rows(&opts, Some("sdl"));
    assert_eq!(rows[0].title, "[1] gtk");
    assert_eq!(rows[0].detail, "    GTK - Default windowed display");
    assert!(!rows[0].current);
    assert_eq!(rows[1].title, "[2] sdl *");
    assert!(rows[1].current);
    let rows = option_rows(&opts, None);
    assert_eq!(rows[1].title, "[2] sdl");
}

#[test]
fn menu_rows_number_the_items() {
    let items = get_menu_items(&MenuFlags {
        multi_gpu_passthrough: false,
        single_gpu_passthrough: false,
        gl_acceleration: false,
    });
    let rows = menu_rows(&items);
    assert_eq!(rows.len(), 15);
    assert_eq!(rows[0].title, "[1] Boot Options");
    assert_eq!(rows[0].detail, "    Normal, install, or custom ISO boot");
    assert_eq!(rows[14].title, "[15] Edit Raw Configuration");
}

#[test]
fn boot_choices_in_order() {
    let b = boot_options();
    assert_eq!(b.len(), 5);
    assert_eq!(b[0].0, "Normal boot");
    assert_eq!(b[4], ("Boot with floppy image".to_string(), "Select a floppy image (.img, .ima) to boot".to_string()));
}

#[test]
fn titles_name_the_current_setting() {
    assert_eq!(cpu_model_title(&Some("host".to_string())), " CPU Model (current: host) ");
    assert_eq!(cpu_model_title(&None), " CPU Model (current: (default)) ");
    assert_eq!(machine_type_title(&Some("q35".to_string())), " Machine Type (current: q35) ");
    assert_eq!(machine_type_title(&None), " Machine Type (current: (default)) ");
    assert_eq!(display_title("gtk"), " Display Options (current: gtk) ");
    assert_eq!(management_title(Some("Debian 12")), " Debian 12 - Management ");
    assert_eq!(management_title(None), " Unknown - Management ");
    assert_eq!(snapshots_title(true, 3), " Snapshots (3) ");
    assert_eq!(snapshots_title(false, 3), " Snapshots (not supported) ");
    assert_eq!(
        snapshot_lines("before-upgrade", "2024-05-01 10:00", "1.2 GiB"),
        ("  before-upgrade".to_string(), "    2024-05-01 10:00 - 1.2 GiB".to_string())
    );
}

#[test]
fn system_fields_show_values_or_defaults() {
    let s = SystemSettings { memory_mb: 4096, cpu_cores: 4, cpu_model: None, machine: Some("q35".to_string()) };
    assert_eq!(
        system_fields(Some(&s)),
        pairs(&[("Memory", "4096 MB"), ("CPU Cores", "4"), ("CPU Model", "(default)"), ("Machine Type", "q35")])
    );
    assert_eq!(
        system_fields(None),
        pairs(&[("Memory", "-"), ("CPU Cores", "-"), ("CPU Model", "(default)"), ("Machine Type", "(default)")])
    );
}

#[test]
fn dialogs_fit_their_area() {
    let area = Area { x: 0, y: 0, width: 120, height: 40 };
    assert_eq!(dialog_area(58, 20, area), Area { x: 31, y: 10, width: 58, height: 20 });
    // Fifteen items want 36 rows; the area leaves 36.
    assert_eq!(menu_dialog_area(15, area), Area { x: 35, y: 2, width: 50, height: 36 });
    assert_eq!(menu_dialog_area(17, area), Area { x: 35, y: 2, width: 50, height: 36 });
    assert_eq!(menu_dialog_area(0, area), Area { x: 35, y: 17, width: 50, height: 6 });
}
