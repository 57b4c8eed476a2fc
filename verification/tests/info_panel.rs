use vm_curator::config_summary::{ConfigLine, ConfigSummary};
use vm_curator::info_panel::{
    detail_lines, details_title, panel_lines, split_lines, DetailLine, OsDetails, OsIdentity,
    PanelLine,
};

#[test]
fn split_lines_agrees_with_str_lines() {
    for s in [
        "", "a", "a\n", "a\nb", "a\n\nb\n", "\n", "\n\n", "a\r\nb\r\n", "a\r", "x\ry\nz", "é\nü",
    ] {
        let expected: Vec<String> = s.lines().map(str::to_string).collect();
        assert_eq!(split_lines(s), expected, "{s:?}");
    }
}

fn bare_config() -> ConfigSummary {
    ConfigSummary {
        architecture: "x86_64".to_string(),
        command: "qemu-system-x86_64".to_string(),
        cpu_cores: 2,
        cpu_model: None,
        memory: "2048 MB (2.0 GB)".to_string(),
        machine: None,
        enable_kvm: false,
        uefi: false,
        tpm: false,
        gl_acceleration: false,
        disks: vec![],
        networks: vec![],
    }
}

#[test]
fn panel_shows_art_name_identity_config_and_notes() {
    let os = OsIdentity {
        name: "Debian".to_string(),
        publisher: "Debian Project".to_string(),
        release_date: "2023-06-10".to_string(),
    };
    let lines = panel_lines("\n\n  /\\\n /  \\\n", "Debian 12", Some(&os), Some(&bare_config()), Some("first\nsecond"));
    assert_eq!(lines[0], PanelLine::Art("  /\\".to_string()));
    assert_eq!(lines[1], PanelLine::Art(" /  \\".to_string()));
    assert_eq!(lines[2], PanelLine::Blank);
    assert_eq!(lines[3], PanelLine::Name("Debian 12".to_string()));
    assert_eq!(
        lines[4],
        PanelLine::Identity("Debian".to_string(), "Debian Project".to_string(), "2023-06-10".to_string())
    );
    assert_eq!(lines[5], PanelLine::Blank);
    assert_eq!(lines[6], PanelLine::Config(ConfigLine::Heading("Hardware".to_string())));
    let n = lines.len();
    assert_eq!(lines[n - 4], PanelLine::Blank);
    assert_eq!(lines[n - 3], PanelLine::NotesHeading);
    assert_eq!(lines[n - 2], PanelLine::Note("first".to_string()));
    assert_eq!(lines[n - 1], PanelLine::Note("second".to_string()));
}

#[test]
fn panel_without_os_config_or_notes() {
    let lines = panel_lines("", "No VM selected", None, None, None);
    assert_eq!(
        lines,
        vec![PanelLine::Blank, PanelLine::Name("No VM selected".to_string()), PanelLine::Blank]
    );
}

#[test]
fn details_list_identity_description_and_facts() {
    let d = OsDetails {
        name: "Haiku".to_string(),
        publisher: "Haiku, Inc.".to_string(),
        release_date: "2024".to_string(),
        architecture: "x86_64".to_string(),
        long_blurb: "An open-source OS.\nInspired by BeOS.".to_string(),
        fun_facts: vec!["Written in C++".to_string()],
    };
    let lines = detail_lines(&d);
    assert_eq!(lines[0], DetailLine::Labeled("Name: ".to_string(), "Haiku".to_string()));
    assert_eq!(lines[3], DetailLine::Labeled("Architecture: ".to_string(), "x86_64".to_string()));
    assert_eq!(lines[4], DetailLine::Blank);
    assert_eq!(lines[5], DetailLine::Heading("About".to_string()));
    assert_eq!(lines[6], DetailLine::Plain("An open-source OS.".to_string()));
    assert_eq!(lines[7], DetailLine::Plain("Inspired by BeOS.".to_string()));
    assert_eq!(lines[8], DetailLine::Blank);
    assert_eq!(lines[9], DetailLine::Heading("Fun Facts".to_string()));
    assert_eq!(lines[10], DetailLine::Plain("• Written in C++".to_string()));
    assert_eq!(lines.len(), 11);

    let bare = OsDetails { long_blurb: String::new(), fun_facts: vec![], ..d };
    assert_eq!(detail_lines(&bare).len(), 5);
    assert_eq!(details_title("Haiku R1"), " Haiku R1 - Details ");
}
