use backuptool::order::{compare_keys, sort_texts};
use backuptool::platform::{path_join, Platform};
use backuptool::text::{
    chars_of, contains_str, contains_text, decimal, first_line_containing, lines, parse_u32,
    replace_str, split_char, starts_with_str, str_eq, string_of, trim_chars, words,
};

#[test]
fn decimal_numerals() {
    assert_eq!(decimal(0), "0");
    assert_eq!(decimal(7), "7");
    assert_eq!(decimal(1234), "1234");
    assert_eq!(decimal(u64::MAX), u64::MAX.to_string());
}

#[test]
fn key_order_is_byte_order() {
    assert!(compare_keys("a", "b") < 0);
    assert!(compare_keys("b", "a") > 0);
    assert_eq!(compare_keys("é", "é"), 0);
    assert!(compare_keys("ab", "abc") < 0);
    assert!(compare_keys("Z", "a") < 0);
    assert!(compare_keys("z", "é") < 0);
    let v = sort_texts(vec!["pear".into(), "Apple".into(), "apple".into(), "pear".into()]);
    assert_eq!(v, vec!["Apple".to_string(), "apple".to_string(), "pear".to_string(), "pear".to_string()]);
}

#[test]
fn splitting_and_lines() {
    assert_eq!(split_char("a:b::c", ':'), vec!["a", "b", "", "c"]);
    assert_eq!(split_char("", ':'), vec![""]);
    assert_eq!(lines("one\r\ntwo\n\nthree\n"), vec!["one", "two", "", "three"]);
    assert!(lines("").is_empty());
    assert_eq!(words("  a \t b\nc  "), vec!["a", "b", "c"]);
    assert_eq!(first_line_containing("x\nab|cd\nef|g", "|").as_deref(), Some("ab|cd"));
    assert!(first_line_containing("x\ny", "|").is_none());
}

#[test]
fn searching_and_replacing() {
    assert!(contains_str("hello world", "o w"));
    assert!(!contains_str("hello", "hello!"));
    assert!(contains_str("abc", ""));
    assert!(starts_with_str("/media/x", "/media/"));
    assert!(!starts_with_str("/mnt", "/media/"));
    assert_eq!(replace_str(r"/media/my\040stick", r"\040", " "), "/media/my stick");
    assert!(contains_text(&["a".to_string(), "b".to_string()], "b"));
    assert!(!contains_text(&["a".to_string()], "c"));
    assert!(str_eq("é", "é"));
    assert!(!str_eq("e", "é"));
}

#[test]
fn numbers_and_case() {
    assert_eq!(parse_u32("1000"), Some(1000));
    assert_eq!(parse_u32("+7"), Some(7));
    assert_eq!(parse_u32("4294967295"), Some(u32::MAX));
    assert_eq!(parse_u32("4294967296"), None);
    assert_eq!(parse_u32("-1"), None);
    assert_eq!(parse_u32(""), None);
    assert_eq!(string_of(&trim_chars(&chars_of("  x y \n"))), "x y");
}

#[test]
fn paths_join_with_the_platform_separator() {
    assert_eq!(path_join(Platform::Linux, "/a", "b"), "/a/b");
    assert_eq!(path_join(Platform::Linux, "/a/", "b"), "/a/b");
    assert_eq!(path_join(Platform::Windows, "C:\\a", "b"), "C:\\a\\b");
    assert_eq!(path_join(Platform::Windows, "C:/a/", "b"), "C:/a/b");
    assert_eq!(path_join(Platform::Linux, "", "b"), "b");
    assert_eq!(Platform::from_os_name("macos"), Platform::MacOs);
    assert_eq!(Platform::from_os_name("freebsd"), Platform::Other);
    assert!(Platform::Linux.is_unix());
    assert!(!Platform::Windows.is_unix());
}
