use rsclip_core::cli::{flag, option_value, parse_i64, positional};

fn args(list: &[&str]) -> Vec<String> {
    list.iter().map(|s| s.to_string()).collect()
}

#[test]
fn flags_and_options() {
    let a = args(&["12", "--copy-only", "--delay-ms", "200", "--mime", "text/plain"]);
    assert!(flag(&a, "--copy-only"));
    assert!(!flag(&a, "--json"));
    assert_eq!(option_value(&a, "--delay-ms"), Some("200"));
    assert_eq!(option_value(&a, "--mime"), Some("text/plain"));
    assert_eq!(option_value(&a, "--limit"), None);
    assert_eq!(option_value(&args(&["--mime"]), "--mime"), None);
}

#[test]
fn positionals_skip_options() {
    let a = args(&["--copy-only", "12", "--x", "7"]);
    assert_eq!(positional(&a, 0), Some("12"));
    assert_eq!(positional(&a, 1), Some("7"));
    assert_eq!(positional(&a, 2), None);
    assert_eq!(positional(&args(&[]), 0), None);
}

#[test]
fn i64_parsing_matches_std() {
    for s in [
        "0", "-0", "42", "+42", "-42", "9223372036854775807", "9223372036854775808",
        "-9223372036854775808", "-9223372036854775809", "", "-", "+", "-+1", "+-1", "1.5", "abc",
    ] {
        assert_eq!(parse_i64(s), s.parse::<i64>().ok(), "{s:?}");
    }
}
