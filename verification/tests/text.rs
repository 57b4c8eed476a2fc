use vm_curator::text::{count_words, wrapped_line_count};

#[test]
fn fits_on_one_line_when_wide_enough() {
    assert_eq!(
        wrapped_line_count("[Enter] Launch  [x] Stop  [m] Manage", 200),
        1
    );
}

#[test]
fn wraps_to_multiple_lines_when_narrow() {
    let narrow = wrapped_line_count("[Enter] Launch  [x] Stop  [m] Manage  [c] Create", 20);
    assert!(
        narrow > 1,
        "expected wrapping at width 20, got {narrow} line(s)"
    );
}

#[test]
fn never_below_one() {
    assert_eq!(wrapped_line_count("", 50), 1);
    assert_eq!(wrapped_line_count("hi", 0), 1);
}

#[test]
fn never_splits_a_single_word() {
    assert_eq!(
        wrapped_line_count("supercalifragilisticexpialidocious", 5),
        1
    );
}

#[test]
fn double_spaces_between_words_count_toward_line_width() {
    assert_eq!(wrapped_line_count("AAAA  BB", 7), 2);
    assert_eq!(wrapped_line_count("AAAA  BB", 8), 1);
}

#[test]
fn matches_real_help_bar_hint_text_wrap_width() {
    let hints = " [Enter] Launch  [x] Stop  [m] Manage  [c] Create  [i] Import  \
        [s] Settings  [n] Networks  [g] Groups  [/] Search  [?] Help  [q] Quit ";
    assert_eq!(wrapped_line_count(hints, 128), 2);
}

#[test]
fn leading_whitespace_does_not_count_on_the_first_line() {
    assert_eq!(wrapped_line_count("      abcd", 4), 1);
}

#[test]
fn exact_counts_for_greedy_wrapping() {
    // "aa bb cc" at width 5: "aa bb" (5) then "cc".
    assert_eq!(wrapped_line_count("aa bb cc", 5), 2);
    // width 2: every word on its own line.
    assert_eq!(wrapped_line_count("aa bb cc", 2), 3);
    // tabs and newlines are whitespace too.
    assert_eq!(wrapped_line_count("aa\tbb\ncc", 8), 1);
}

#[test]
fn word_count_bounds_the_line_count() {
    let t = "aa bb cc dd";
    assert_eq!(count_words(t), 4);
    assert_eq!(count_words("  \t "), 0);
    assert_eq!(count_words(""), 0);
    for w in 1..12u16 {
        assert!(wrapped_line_count(t, w) as usize <= count_words(t));
    }
    assert_eq!(wrapped_line_count(t, 1), 4);
}

#[test]
fn one_line_exactly_when_the_trimmed_text_fits() {
    // "aa bb" trimmed is 5 columns wide.
    assert_eq!(wrapped_line_count("  aa bb  ", 5), 1);
    assert_eq!(wrapped_line_count("  aa bb  ", 4), 2);
    assert_eq!(wrapped_line_count("  longword  ", 2), 1);
}

#[test]
fn wider_columns_never_need_more_lines() {
    let t = "[Enter] Launch  [x] Stop  [m] Manage  [c] Create  [i] Import";
    let mut prev = wrapped_line_count(t, 1);
    for w in 2..80u16 {
        let n = wrapped_line_count(t, w);
        assert!(n <= prev, "width {w}");
        prev = n;
    }
}
