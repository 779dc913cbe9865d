use urc::decimal::{decimal_string, parse_u16, parse_u32};
use urc::paths::path_join;
use urc::text::{join, lines, replace_all, split_char, split_whitespace, trim, trim_end_char};

#[test]
fn decimal_round_trip() {
    for n in [0u32, 7, 10, 65535, 4_000_000_000, u32::MAX] {
        assert_eq!(parse_u32(&decimal_string(n as u64)), Some(n));
        assert_eq!(decimal_string(n as u64), n.to_string());
    }
}

#[test]
fn parse_follows_from_str() {
    assert_eq!(parse_u16("65535"), Some(65535));
    assert_eq!(parse_u16("65536"), None);
    assert_eq!(parse_u16("+7"), Some(7));
    assert_eq!(parse_u16("007"), Some(7));
    assert_eq!(parse_u16(""), None);
    assert_eq!(parse_u16("+"), None);
    assert_eq!(parse_u16("-1"), None);
    assert_eq!(parse_u32(" 1"), None);
    assert_eq!(parse_u32("4294967296"), None);
}

#[test]
fn text_helpers_match_std() {
    assert_eq!(trim("  a b \t\n"), "a b");
    assert_eq!(trim_end_char("x.y..", '.'), "x.y");
    assert_eq!(split_char("a::b", ':'), vec!["a", "", "b"]);
    assert_eq!(split_whitespace("  one two\tthree "), vec!["one", "two", "three"]);
    assert_eq!(lines("a\r\nb\n\nc"), vec!["a", "b", "", "c"]);
    assert_eq!(join(&vec!["x".to_string(), "y".to_string()], "; "), "x; y");
    assert_eq!(replace_all("a-b-c", "-", "+"), "a+b+c");
}

#[test]
fn path_join_follows_pathbuf() {
    assert_eq!(path_join("/a", "b"), "/a/b");
    assert_eq!(path_join("/a/", "b"), "/a/b");
    assert_eq!(path_join("/a", "/b"), "/b");
    assert_eq!(path_join("", "b"), "b");
}
