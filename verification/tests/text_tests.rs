use agctl::text::{chars_of, join, last_field, pad_right_str, split_field, starts_with, trim_chars};

#[test]
fn split_field_like_str_split() {
    assert_eq!(split_field("a:b:c", ':', 0), Some("a".to_string()));
    assert_eq!(split_field("a:b:c", ':', 2), Some("c".to_string()));
    assert_eq!(split_field("a:b:c", ':', 3), None);
    assert_eq!(split_field("", ':', 0), Some(String::new()));
    assert_eq!(split_field("a::", ':', 2), Some(String::new()));
}

#[test]
fn last_field_after_last_separator() {
    assert_eq!(last_field("runtime/abc", '/'), "abc");
    assert_eq!(last_field("a/b/c", '/'), "c");
    assert_eq!(last_field("noslash", '/'), "noslash");
    assert_eq!(last_field("trailing/", '/'), "");
}

#[test]
fn prefix_and_padding() {
    assert!(starts_with("arn:aws", "arn:"));
    assert!(!starts_with("ar", "arn:"));
    assert_eq!(pad_right_str("ab", 4), "ab  ");
    assert_eq!(pad_right_str("abcdef", 4), "abcdef");
    assert_eq!(pad_right_str("é", 3), "é  ");
}

#[test]
fn join_with_space() {
    let parts = vec!["echo".to_string(), "hello".to_string()];
    assert_eq!(join(&parts, " "), "echo hello");
    assert_eq!(join(&vec![], " "), "");
    assert_eq!(join(&vec!["one".to_string()], " "), "one");
}

#[test]
fn trim_unicode_white_space() {
    assert_eq!(trim_chars("  y\n"), vec!['y']);
    assert_eq!(trim_chars("\u{3000}y\u{a0}"), vec!['y']);
    assert_eq!(trim_chars(" \t "), Vec::<char>::new());
    assert_eq!(chars_of("añb"), vec!['a', 'ñ', 'b']);
}
