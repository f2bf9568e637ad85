use stabilize::args::parse_args;
use stabilize::text::{decimal_string, is_wildcard, str_eq};

fn strings(items: &[&str]) -> Vec<String> {
    items.iter().map(|s| s.to_string()).collect()
}

#[test]
fn upgrade_flag_after_subcommand() {
    let c = parse_args(&strings(&["cargo", "stabilize", "--upgrade"]));
    assert!(c.upgrade_all);
    assert!(!c.help_requested);
    assert!(c.unknown.is_empty());
}

#[test]
fn help_flags() {
    let c = parse_args(&strings(&["cargo", "stabilize", "-h"]));
    assert!(c.help_requested);
    assert!(!c.upgrade_all);
    let c = parse_args(&strings(&["cargo", "stabilize", "--help", "--upgrade"]));
    assert!(c.help_requested);
    assert!(c.upgrade_all);
}

#[test]
fn unknown_tokens_are_collected_in_order() {
    let c = parse_args(&strings(&["cargo", "stabilize", "bogus", "--upgrade", "extra"]));
    assert!(c.upgrade_all);
    assert_eq!(c.unknown, strings(&["bogus", "extra"]));
}

#[test]
fn tokens_before_the_subcommand_are_ignored() {
    // without a `stabilize` token everything is invocation name
    let c = parse_args(&strings(&["--upgrade"]));
    assert!(!c.upgrade_all);
    assert!(c.unknown.is_empty());
    // flags standing before the token are ignored too
    let c = parse_args(&strings(&["cargo", "--upgrade", "stabilize"]));
    assert!(!c.upgrade_all);
}

#[test]
fn no_arguments_at_all() {
    let c = parse_args(&Vec::new());
    assert!(!c.upgrade_all);
    assert!(!c.help_requested);
    assert!(c.unknown.is_empty());
}

#[test]
fn decimal_rendering() {
    assert_eq!(decimal_string(0), "0");
    assert_eq!(decimal_string(7), "7");
    assert_eq!(decimal_string(10), "10");
    assert_eq!(decimal_string(12034), "12034");
}

#[test]
fn wildcard_recognition() {
    assert!(is_wildcard("*"));
    assert!(!is_wildcard(""));
    assert!(!is_wildcard("1.0"));
    assert!(!is_wildcard("**"));
}

#[test]
fn string_equality_by_value() {
    assert!(str_eq("abc", "abc"));
    assert!(!str_eq("abc", "abd"));
    assert!(!str_eq("abc", "abcd"));
}
