use finupdate::text;

#[test]
fn pieces_and_joins() {
    assert_eq!(text::split("a/b//c", '/'), vec!["a", "b", "", "c"]);
    assert_eq!(text::join(&text::split("a/b/c", '/'), 1, "+"), "b+c");
    assert_eq!(
        text::split_once("a:b:c", ':'),
        Some(("a".to_string(), "b:c".to_string()))
    );
    assert_eq!(
        text::rsplit_once("a:b:c", ':'),
        Some(("a:b".to_string(), "c".to_string()))
    );
    assert_eq!(text::split_once("abc", ':'), None);
}

#[test]
fn lines_and_words() {
    assert_eq!(text::lines("a\r\nb\n\nc"), vec!["a", "b", "", "c"]);
    assert_eq!(text::lines(""), Vec::<String>::new());
    assert_eq!(
        text::split_ascii_whitespace("  a\tb \n c"),
        vec!["a", "b", "c"]
    );
    assert_eq!(text::trim(" \u{a0}x y\u{3000}\n"), "x y");
}

#[test]
fn numbers_are_written_and_read() {
    assert_eq!(text::number(0), "0");
    assert_eq!(text::number(u64::MAX), "18446744073709551615");
    assert_eq!(text::signed_number(-12), "-12");
    assert_eq!(text::two_digit_number(7), "07");
    assert_eq!(text::two_digit_number(123), "123");
    assert_eq!(text::parse_u32("4294967295"), Some(u32::MAX));
    assert_eq!(text::parse_u32("4294967296"), None);
    assert_eq!(text::parse_u32("+7"), Some(7));
    assert_eq!(text::parse_u32(""), None);
    assert_eq!(text::parse_u32("-7"), None);
    assert_eq!(text::parse_i32("-2147483648"), Some(i32::MIN));
    assert_eq!(text::parse_i32("2147483648"), None);
    assert_eq!(text::parse_i32("+"), None);
}

#[test]
fn texts_are_cut_by_bytes() {
    assert_eq!(text::cut("abcdef", 3), Some("abc".to_string()));
    assert_eq!(text::cut("ab", 3), None);
    assert_eq!(text::cut("aéb", 3), Some("aé".to_string()));
    assert!(!text::can_cut("aéb", 2));
    assert!(text::can_cut("a", 2));
}

#[test]
fn texts_are_found_and_compared() {
    assert_eq!(text::find("hello", "l"), Some(2));
    assert_eq!(text::find("hello", ""), Some(0));
    assert!(text::contains("hello", "ell"));
    assert!(!text::contains("hello", "elo"));
    assert!(text::comes_before("a", "ab"));
    assert!(text::comes_before("Z", "a"));
    assert!(!text::comes_before("a", "a"));
    assert_eq!(
        text::strip_prefix("--sim=x", "--sim="),
        Some("x".to_string())
    );
    assert_eq!(text::strip_suffix("x.json", ".txt"), None);
    assert_eq!(text::to_ascii_lowercase("AbÉ"), "abÉ");
    assert_eq!(text::replace("a:b:c", ':', '-'), "a-b-c");
    assert_eq!(text::remove_char("a\0b", '\0'), "ab");
}
