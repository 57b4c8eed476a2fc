use vm_curator::main_menu::{help_bar_height, help_hints, join_hints, wrapped_line_count, HintStyle};

#[test]
fn wrapped_line_count_fits_on_one_line_when_wide_enough() {
    assert_eq!(wrapped_line_count("[Enter] Launch  [x] Stop  [m] Manage", 200), 1);
}

#[test]
fn wrapped_line_count_wraps_to_multiple_lines_when_narrow() {
    let narrow = wrapped_line_count("[Enter] Launch  [x] Stop  [m] Manage  [c] Create", 20);
    assert!(
        narrow > 1,
        "expected wrapping at width 20, got {narrow} line(s)"
    );
}

#[test]
fn wrapped_line_count_never_below_one() {
    assert_eq!(wrapped_line_count("", 50), 1);
    assert_eq!(wrapped_line_count("hi", 0), 1);
}

#[test]
fn wrapped_line_count_never_splits_a_single_word() {
    assert_eq!(wrapped_line_count("supercalifragilisticexpialidocious", 5), 1);
}

#[test]
fn hint_wrapping_counts_one_column_between_words() {
    // Two spaces between the words count as one: "AAAA BB" is 7 columns.
    assert_eq!(wrapped_line_count("AAAA  BB", 7), 1);
    assert_eq!(wrapped_line_count("AAAA  BB", 6), 2);
    assert_eq!(wrapped_line_count("aa bb cc", 5), 2);
    assert_eq!(wrapped_line_count("aa bb cc", 2), 3);
}

#[test]
fn default_hints_list_every_key() {
    let hints = help_hints(None, None);
    assert_eq!(hints.len(), 22);
    assert_eq!(hints[0].text, " [Enter]");
    assert_eq!(hints[0].style, HintStyle::Key);
    assert_eq!(hints[1].text, " Launch ");
    assert_eq!(hints[1].style, HintStyle::Label);
    assert_eq!(hints[21].text, " Quit ");
    assert_eq!(
        join_hints(&hints),
        " [Enter] Launch  [x] Stop  [m] Manage  [c] Create  [i] Import  [s] Settings  \
         [n] Networks  [g] Groups  [/] Search  [?] Help  [q] Quit "
    );
}

#[test]
fn stopping_vm_replaces_the_hints() {
    let hints = help_hints(None, Some(("Debian 12", 3)));
    assert_eq!(hints.len(), 1);
    assert_eq!(hints[0].text, "Stopping Debian 12...");
    assert_eq!(hints[0].style, HintStyle::Stopping);
    let hints = help_hints(None, Some(("Debian 12", 10)));
    assert_eq!(hints[0].text, "Stopping Debian 12... (press x to force stop)");
}

#[test]
fn status_message_overrides_everything() {
    let hints = help_hints(Some("Saved"), Some(("Debian 12", 30)));
    assert_eq!(hints.len(), 1);
    assert_eq!(hints[0].text, "Saved");
    assert_eq!(hints[0].style, HintStyle::Status);
}

#[test]
fn help_bar_height_adds_the_borders() {
    let hints = help_hints(None, None);
    // 128 columns minus the two borders leaves 126 for the text.
    let text = join_hints(&hints);
    assert_eq!(help_bar_height(&hints, 128), wrapped_line_count(&text, 126) + 2);
    assert_eq!(help_bar_height(&hints, 400), 3);
    assert_eq!(help_bar_height(&hints, 1), 3);
    let status = help_hints(Some("ok"), None);
    assert_eq!(help_bar_height(&status, 20), 3);
}
