use status_core::text::{
    clean_text, eq_ignore_ascii_case, escape, split, str_eq, str_lt, trim, u64_to_string,
};

#[test]
fn escape_backslashes_and_quotes() {
    assert_eq!(escape(r#"a"b\c"#), r#"a\"b\\c"#);
    assert_eq!(escape(""), "");
    assert_eq!(escape("plain"), "plain");
    assert_eq!(escape("\\"), "\\\\");
    assert_eq!(escape("\""), "\\\"");
}

#[test]
fn trim_strips_unicode_whitespace() {
    assert_eq!(trim("  x "), "x");
    assert_eq!(trim("\t\r\nx\n"), "x");
    assert_eq!(trim("\u{3000}x\u{3000}"), "x");
    assert_eq!(trim("\u{a0}\u{2003}x"), "x");
    assert_eq!(trim("   "), "");
    assert_eq!(trim(""), "");
    assert_eq!(trim("a b"), "a b");
}

#[test]
fn clean_text_collapses_blank_to_none() {
    assert_eq!(clean_text(Some("  hello  ")).as_deref(), Some("hello"));
    assert_eq!(clean_text(Some("   ")), None);
    assert_eq!(clean_text(Some("")), None);
    assert_eq!(clean_text(None), None);
}

#[test]
fn string_equality_and_order() {
    assert!(str_eq("abc", "abc"));
    assert!(!str_eq("abc", "abd"));
    assert!(!str_eq("abc", "ab"));
    assert!(str_lt("a", "b"));
    assert!(str_lt("a", "ab"));
    assert!(!str_lt("b", "a"));
    assert!(!str_lt("a", "a"));
    assert!(str_lt("Z", "a"));
}

#[test]
fn case_insensitive_ascii_compare() {
    assert!(eq_ignore_ascii_case("PLaying", "playing"));
    assert!(eq_ignore_ascii_case("", ""));
    assert!(!eq_ignore_ascii_case("playing", "paused"));
    assert!(!eq_ignore_ascii_case("playing", "playin"));
}

#[test]
fn split_matches_std_split() {
    let parts = split("a\tb\tc", '\t');
    assert_eq!(parts, vec!["a", "b", "c"]);
    assert_eq!(split("a", '\t'), vec!["a"]);
    assert_eq!(split("", '\t'), vec![""]);
    assert_eq!(split("a\t", '\t'), vec!["a", ""]);
    assert_eq!(split("\ta", '\t'), vec!["", "a"]);
    // the same shapes std::str::split produces
    let std_parts: Vec<&str> = "a\tb\tc".split('\t').collect();
    assert_eq!(parts, std_parts);
}

#[test]
fn decimal_rendering() {
    assert_eq!(u64_to_string(0), "0");
    assert_eq!(u64_to_string(7), "7");
    assert_eq!(u64_to_string(1234567890), "1234567890");
    assert_eq!(u64_to_string(u64::MAX), u64::MAX.to_string());
}
