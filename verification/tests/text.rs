use commander::order::{chars_less, str_less};
use commander::path::{has_parent_component_exec, is_absolute_exec, relative_path, replace_backslashes};
use commander::text::{
    ascii_lowercase_str, char_width_exec, contains_str, decimal_string, has_zero_byte,
    join_strs, prefix_cut_exec, split_lines, suffix_cut_exec, trim_str, truncate_bytes_with,
};

#[test]
fn char_widths_follow_utf8() {
    assert_eq!(char_width_exec('a'), 1);
    assert_eq!(char_width_exec('é'), 2);
    assert_eq!(char_width_exec('€'), 3);
    assert_eq!(char_width_exec('😀'), 4);
}

#[test]
fn trim_removes_unicode_whitespace_on_both_sides() {
    assert_eq!(trim_str("  \t hello world \n"), "hello world");
    assert_eq!(trim_str("\u{3000}x\u{a0}"), "x");
    assert_eq!(trim_str("   "), "");
    let once = trim_str("  a b  ");
    assert_eq!(trim_str(&once), once);
}

#[test]
fn lowercase_touches_ascii_only() {
    assert_eq!(ascii_lowercase_str("RM -RF /"), "rm -rf /");
    assert_eq!(ascii_lowercase_str("ÄBC"), "Äbc");
}

#[test]
fn decimal_strings_match_display() {
    assert_eq!(decimal_string(0), "0");
    assert_eq!(decimal_string(120), "120");
    assert_eq!(decimal_string(u128::MAX), u128::MAX.to_string());
}

#[test]
fn split_lines_matches_str_lines() {
    let cases = ["a\nb\r\nc", "a\n\nb\n", "", "\n", "x\r", "one"];
    for case in cases {
        let expected: Vec<String> = case.lines().map(|l| l.to_string()).collect();
        assert_eq!(split_lines(case), expected);
    }
}

#[test]
fn byte_cuts_stop_on_character_boundaries() {
    let v: Vec<char> = "aé€".chars().collect();
    assert_eq!(prefix_cut_exec(&v, 0), 0);
    assert_eq!(prefix_cut_exec(&v, 2), 1);
    assert_eq!(prefix_cut_exec(&v, 3), 2);
    assert_eq!(prefix_cut_exec(&v, 5), 2);
    assert_eq!(prefix_cut_exec(&v, 6), 3);
    assert_eq!(suffix_cut_exec(&v, 6, 3), 2);
    assert_eq!(suffix_cut_exec(&v, 6, 4), 2);
    assert_eq!(suffix_cut_exec(&v, 6, 5), 1);
    assert_eq!(suffix_cut_exec(&v, 6, 6), 0);
}

#[test]
fn truncation_appends_marker_only_when_cutting() {
    assert_eq!(truncate_bytes_with("short", 10, "…"), ("short".to_string(), false));
    assert_eq!(truncate_bytes_with("abcdef", 3, "[cut]"), ("abc[cut]".to_string(), true));
    assert_eq!(truncate_bytes_with("aé", 2, "!"), ("a!".to_string(), true));
}

#[test]
fn joining_and_membership() {
    assert_eq!(join_strs(&["a", "b", "c"], ", "), "a, b, c");
    assert_eq!(join_strs(&[], ", "), "");
    assert!(contains_str(&["x", "y"], "y"));
    assert!(!contains_str(&["x", "y"], "z"));
    assert_eq!(commander::text::concat("ab", "cd"), "abcd");
    assert!(has_zero_byte(&vec![1, 0, 2]));
    assert!(!has_zero_byte(&vec![1, 2]));
}

#[test]
fn lexicographic_order_on_characters() {
    assert!(str_less("abc", "abd"));
    assert!(str_less("ab", "abc"));
    assert!(!str_less("abc", "abc"));
    assert!(!str_less("b", "abc"));
    let a: Vec<char> = "Z".chars().collect();
    let b: Vec<char> = "a".chars().collect();
    assert!(chars_less(&a, &b));
}

#[test]
fn path_shapes() {
    assert!(is_absolute_exec("/etc/passwd"));
    assert!(!is_absolute_exec("src/main.rs"));
    assert!(has_parent_component_exec("a/../b"));
    assert!(has_parent_component_exec(".."));
    assert!(!has_parent_component_exec("a/..b/c"));
    assert_eq!(replace_backslashes("a\\b\\c"), "a/b/c");
}

#[test]
fn relative_paths_inside_and_outside_the_workspace() {
    assert_eq!(relative_path("/work", "/work").ok().unwrap(), ".");
    assert_eq!(relative_path("/work", "/work/src/lib.rs").ok().unwrap(), "src/lib.rs");
    assert!(relative_path("/work", "/other/file").is_err());
}
