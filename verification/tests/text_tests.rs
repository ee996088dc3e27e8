use snowlv::text::{
    channel_reference, chars_of, contains_str, decimal_string, eq_ignore_ascii_case, is_whitespace,
    matches_search, matching_options, name_passes_filter, parse_default_parameters, text_width, truncate_label,
};

#[test]
fn truncate_label_keeps_short_labels() {
    assert_eq!(truncate_label("RPM", 20), "RPM");
    assert_eq!(truncate_label("exactly-twenty-chars", 20), "exactly-twenty-chars");
}

#[test]
fn truncate_label_cuts_long_labels_with_ellipsis() {
    let label = truncate_label("Manifold Absolute Pressure", 20);
    assert_eq!(label, "Manifold Absolute P\u{2026}");
    assert_eq!(label.chars().count(), 20);
}

#[test]
fn truncate_label_cuts_at_a_byte_count() {
    assert_eq!(truncate_label("abcdef", 3), "ab\u{2026}");
    assert_eq!(truncate_label("abcdef", 1), "\u{2026}");
}

#[test]
fn parse_default_parameters_splits_and_trims() {
    let names = parse_default_parameters("RPM, MAP;\n  TPS ,,\n");
    assert_eq!(names, vec!["RPM".to_string(), "MAP".to_string(), "TPS".to_string()]);
}

#[test]
fn parse_default_parameters_keeps_inner_spaces() {
    let names = parse_default_parameters("Engine Speed\nWideband O2 Overall");
    assert_eq!(names, vec!["Engine Speed".to_string(), "Wideband O2 Overall".to_string()]);
}

#[test]
fn parse_default_parameters_of_blank_input_is_empty() {
    assert!(parse_default_parameters("").is_empty());
    assert!(parse_default_parameters(" ,\t; \n").is_empty());
}

#[test]
fn parse_default_parameters_trims_unicode_white_space() {
    let names = parse_default_parameters("\u{3000}Boost\u{a0};AFR");
    assert_eq!(names, vec!["Boost".to_string(), "AFR".to_string()]);
}

#[test]
fn is_whitespace_matches_std() {
    for c in ['\t', '\n', ' ', '\u{85}', '\u{a0}', '\u{2003}', '\u{3000}', 'a', '0', '\u{200b}'] {
        assert_eq!(is_whitespace(c), c.is_whitespace());
    }
}

#[test]
fn decimal_string_writes_digits() {
    assert_eq!(decimal_string(0), "0");
    assert_eq!(decimal_string(7), "7");
    assert_eq!(decimal_string(1234), "1234");
    assert_eq!(decimal_string(usize::MAX), usize::MAX.to_string());
}

#[test]
fn eq_ignore_ascii_case_folds_letters_only() {
    assert!(eq_ignore_ascii_case("Engine RPM", "engine rpm"));
    assert!(!eq_ignore_ascii_case("RPM", "RPMs"));
    assert!(!eq_ignore_ascii_case("\u{c9}", "\u{e9}"));
    assert!(eq_ignore_ascii_case("", ""));
}

#[test]
fn contains_str_finds_substrings() {
    assert!(contains_str("RPM_mean_ + 1", "_mean_"));
    assert!(!contains_str("RPM mean", "_mean_"));
    assert!(contains_str("abc", ""));
    assert!(!contains_str("ab", "abc"));
}

#[test]
fn text_width_counts_characters() {
    assert_eq!(text_width("abc", 2), 36);
    assert_eq!(text_width("\u{e9}t\u{e9}", 1), 18);
    assert_eq!(text_width("", 3), 0);
}

#[test]
fn chars_of_lists_characters() {
    assert_eq!(chars_of("a\u{e9}b"), vec!['a', '\u{e9}', 'b']);
}

#[test]
fn matching_options_ignores_case_of_query_and_names() {
    let options = vec![
        (0usize, "Engine RPM".to_string()),
        (1, "MAP".to_string()),
        (2, "Wideband AFR".to_string()),
        (3, "rpm target".to_string()),
    ];
    assert_eq!(matching_options("rpm", &options), vec![0, 3]);
    assert_eq!(matching_options("RPM", &options), vec![0, 3]);
    assert_eq!(matching_options("Map", &options), vec![1]);
    assert_eq!(matching_options("boost", &options), Vec::<usize>::new());
}

#[test]
fn matching_options_lists_all_for_empty_query() {
    let options = vec![(4usize, "B".to_string()), (2, "A".to_string())];
    assert_eq!(matching_options("", &options), vec![4, 2]);
}

#[test]
fn channel_reference_quotes_names_with_spaces() {
    assert_eq!(channel_reference(&"Engine Speed".to_string()), "\"Engine Speed\"");
    assert_eq!(channel_reference(&"RPM".to_string()), "RPM");
    assert_eq!(channel_reference(&String::new()), "");
}

#[test]
fn parsed_names_join_back_to_the_same_names() {
    let names = parse_default_parameters("RPM\nMAP\nEngine Speed");
    let joined = names.join("\n");
    assert_eq!(parse_default_parameters(&joined), names);
    assert_eq!(parse_default_parameters(&names.join(",")), names);
    assert_eq!(parse_default_parameters(&names.join(";")), names);
}

#[test]
fn truncated_ascii_label_has_the_limit_length() {
    for max_len in 1..10 {
        let label = truncate_label("Throttle Position Sensor", max_len);
        assert_eq!(label.chars().count(), max_len);
        assert!(label.ends_with('\u{2026}'));
    }
}

#[test]
fn search_matches_any_of_the_entry_texts() {
    assert!(matches_search(&["Wideband O2 Overall", "AFR"], "afr"));
    assert!(matches_search(&["Wideband O2 Overall", "AFR"], "O2 over"));
    assert!(!matches_search(&["Wideband O2 Overall", "AFR"], "rpm"));
    assert!(matches_search(&["anything"], ""));
    assert!(matches_search(&[], ""));
    assert!(!matches_search(&[], "x"));
}

#[test]
fn lowered_name_passes_a_filter_it_contains() {
    assert!(name_passes_filter("engine rpm", "rpm"));
    assert!(!name_passes_filter("engine rpm", "RPM"));
    assert!(!name_passes_filter("map", "rpm"));
    assert!(name_passes_filter("map", ""));
    assert!(name_passes_filter("", ""));
}
