use vm_curator::wizard_types::WizardQemuConfig;

#[test]
fn wizard_config_defaults_to_one_nic() {
    let cfg = WizardQemuConfig::default();
    assert_eq!(cfg.network_adapters.len(), 1);
    assert_eq!(cfg.active_nic, 0);
}

use vm_curator::create_wizard::{
    can_proceed, folder_candidate, generate_folder_name, is_category_expanded, toggle_category,
    CheckedPath, WizardCheck,
};
use vm_curator::wizard_types::{WizardDiskSource, WizardStep};

#[test]
fn folder_names_join_alphanumeric_runs_with_hyphens() {
    assert_eq!(generate_folder_name("My Debian 12!"), "my-debian-12");
    assert_eq!(generate_folder_name("  Windows 11 (Pro)  "), "windows-11-pro");
    assert_eq!(generate_folder_name("already-slugged--name"), "already-slugged-name");
    assert_eq!(generate_folder_name("!!!"), "");
    assert_eq!(generate_folder_name(""), "");
    assert_eq!(generate_folder_name("Ünïcode Näme"), "ünïcode-näme");
}

#[test]
fn folder_candidates_count_up_then_give_up() {
    assert_eq!(folder_candidate("debian", 1), ("debian".to_string(), true));
    assert_eq!(folder_candidate("debian", 2), ("debian-2".to_string(), true));
    assert_eq!(folder_candidate("debian", 1000), ("debian-1000".to_string(), true));
    assert_eq!(
        folder_candidate("debian", 1001),
        ("debian-error-too-many-vms".to_string(), false)
    );
}

fn check(step: WizardStep) -> WizardCheck {
    WizardCheck {
        step,
        vm_name: "Debian".to_string(),
        has_selected_os: true,
        has_custom_os: false,
        disk_source: WizardDiskSource::NewImage,
        existing_disk: None,
        disk_size_gb: 32,
        physical_disk: None,
        machine: None,
        memory_mb: 2048,
        cpu_cores: 2,
    }
}

fn err_of(c: &WizardCheck) -> String {
    can_proceed(c).unwrap_err()
}

#[test]
fn can_proceed_checks_name_and_os() {
    assert!(can_proceed(&check(WizardStep::SelectOs)).is_ok());
    let mut c = check(WizardStep::SelectOs);
    c.vm_name = "   ".to_string();
    assert_eq!(err_of(&c), "Please enter a VM name");
    let mut c = check(WizardStep::SelectOs);
    c.has_selected_os = false;
    assert_eq!(err_of(&c), "Please select an operating system");
    c.has_custom_os = true;
    assert!(can_proceed(&c).is_ok());
    assert!(can_proceed(&check(WizardStep::SelectIso)).is_ok());
    assert!(can_proceed(&check(WizardStep::Confirm)).is_ok());
}

#[test]
fn can_proceed_checks_disks() {
    let mut c = check(WizardStep::ConfigureDisk);
    assert!(can_proceed(&c).is_ok());
    c.disk_size_gb = 0;
    assert_eq!(err_of(&c), "Disk size must be greater than 0");
    c.disk_size_gb = 10001;
    assert_eq!(err_of(&c), "Disk size cannot exceed 10TB");
    c.disk_size_gb = 10000;
    assert!(can_proceed(&c).is_ok());

    c.disk_source = WizardDiskSource::ExistingImage;
    assert_eq!(err_of(&c), "Please select an existing disk");
    c.existing_disk = Some(CheckedPath { display: "/vms/a.qcow2".to_string(), exists: false });
    assert_eq!(err_of(&c), "Disk file not found: /vms/a.qcow2");
    c.existing_disk = Some(CheckedPath { display: "/vms/a.qcow2".to_string(), exists: true });
    assert!(can_proceed(&c).is_ok());

    c.disk_source = WizardDiskSource::PhysicalDevice;
    assert_eq!(err_of(&c), "Please select a physical disk");
    c.physical_disk = Some(CheckedPath { display: "/dev/sdb".to_string(), exists: false });
    assert_eq!(err_of(&c), "Physical disk not found: /dev/sdb");
    c.physical_disk = Some(CheckedPath { display: "/dev/sdb".to_string(), exists: true });
    assert!(can_proceed(&c).is_ok());
    c.machine = Some("q800".to_string());
    assert_eq!(
        err_of(&c),
        "Physical disk passthrough is not supported for this machine type"
    );
    c.machine = Some("mac99,via=pmu".to_string());
    assert!(can_proceed(&c).is_err());
    c.machine = Some("pc-q35".to_string());
    assert!(can_proceed(&c).is_ok());
}

#[test]
fn can_proceed_checks_qemu_settings() {
    let mut c = check(WizardStep::ConfigureQemu);
    assert!(can_proceed(&c).is_ok());
    c.cpu_cores = 0;
    assert_eq!(err_of(&c), "CPU cores must be greater than 0");
    c.memory_mb = 0;
    assert_eq!(err_of(&c), "Memory must be greater than 0");
}

#[test]
fn toggling_a_category_twice_restores_the_list() {
    let mut expanded = vec!["Linux".to_string()];
    assert!(!is_category_expanded(&expanded, "BSD"));
    toggle_category(&mut expanded, "BSD");
    assert!(is_category_expanded(&expanded, "BSD"));
    assert_eq!(expanded, vec!["Linux".to_string(), "BSD".to_string()]);
    toggle_category(&mut expanded, "BSD");
    assert_eq!(expanded, vec!["Linux".to_string()]);
    toggle_category(&mut expanded, "Linux");
    assert!(expanded.is_empty());
}
