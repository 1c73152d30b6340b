use theme_switch::hooks::{
    hook_already_exists, prepare_hook_lines, stamp_line, str_contains, trim_newlines, HookError,
};

fn lines(v: &[&str]) -> Vec<String> {
    v.iter().map(|s| s.to_string()).collect()
}

#[test]
fn stamp_line_has_the_expected_shape() {
    let s = stamp_line("theme-switch", "0.1.0", "https://example.invalid/theme-switch");
    assert_eq!(
        s,
        "# This hook was set for theme-switch v0.1.0: https://example.invalid/theme-switch"
    );
}

#[test]
fn contains_finds_a_needle_anywhere() {
    assert!(str_contains("abcdef", "cde"));
    assert!(str_contains("abcdef", "abc"));
    assert!(str_contains("abcdef", "def"));
    assert!(str_contains("abcdef", ""));
    assert!(!str_contains("abcdef", "deg"));
    assert!(!str_contains("ab", "abc"));
    assert!(str_contains("aaab", "aab"));
}

#[test]
fn a_short_hook_file_counts_as_someone_elses() {
    let stamp = "# This hook was set for theme-switch v0.1.0: home";
    assert!(hook_already_exists(&lines(&[]), stamp));
    assert!(hook_already_exists(&lines(&["#!/bin/sh", "#"]), stamp));
}

#[test]
fn a_stamped_third_line_is_recognised() {
    let stamp = "# This hook was set for theme-switch v0.1.0: home";
    let installed = lines(&[
        "#!/bin/sh",
        "#",
        "# This hook was set for theme-switch v0.1.0: home",
        "cargo test",
    ]);
    assert!(hook_already_exists(&installed, stamp));
    let other = lines(&["#!/bin/sh", "#", "# hand written", "cargo test"]);
    assert!(!hook_already_exists(&other, stamp));
}

#[test]
fn preparing_keeps_the_shebang_in_front() {
    let mut hook = lines(&["#!/bin/sh", "cargo test"]);
    let r = prepare_hook_lines(&mut hook, "# stamp");
    assert_eq!(r, Ok(()));
    assert_eq!(hook, lines(&["#!/bin/sh", "#", "# stamp", "cargo test"]));
}

#[test]
fn preparing_without_a_shebang_prepends_a_comment_block() {
    let mut hook = lines(&["cargo test"]);
    let r = prepare_hook_lines(&mut hook, "# stamp");
    assert_eq!(r, Ok(()));
    assert_eq!(hook, lines(&["#", "#", "# stamp", "cargo test"]));
}

#[test]
fn an_empty_hook_is_refused() {
    let mut hook: Vec<String> = Vec::new();
    let r = prepare_hook_lines(&mut hook, "# stamp");
    assert_eq!(r, Err(HookError::EmptyUserHook));
    assert!(hook.is_empty());
}

#[test]
fn trim_newlines_strips_only_the_trailing_run() {
    assert_eq!(trim_newlines("/repo/.git\n"), "/repo/.git");
    assert_eq!(trim_newlines("/repo/.git\r\n"), "/repo/.git");
    assert_eq!(trim_newlines("/repo/.git"), "/repo/.git");
    assert_eq!(trim_newlines("a\nb\n"), "a\nb");
    assert_eq!(trim_newlines("\r\n\n"), "");
    assert_eq!(trim_newlines(""), "");
}
