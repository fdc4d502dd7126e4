use yapel::text::{
    chars_eq, contains, ends_with, i64_text, lines, owned, push_str, starts_with, str_eq, str_lt, string_of, strip_prefix,
    to_ascii_lowercase, trim, u64_text,
};

#[test]
fn trimming_takes_unicode_white_space() {
    assert_eq!(trim("  a b \t\n"), "a b");
    assert_eq!(trim("\u{a0}x\u{3000}"), "x");
    assert_eq!(trim("   "), "");
    assert_eq!(trim(""), "");
}

#[test]
fn trimming_agrees_with_str_trim_on_every_character() {
    for u in 0u32..=0x10FFFF {
        if let Some(c) = char::from_u32(u) {
            let s = format!("{c}x{c}");
            assert_eq!(trim(&s), s.trim(), "U+{u:04X}");
        }
    }
}

#[test]
fn lines_split_like_str_lines() {
    assert_eq!(lines("a\nb\r\nc"), vec!["a", "b", "c"]);
    assert_eq!(lines("a\n\nb\n"), vec!["a", "", "b"]);
    assert_eq!(lines("x\r"), vec!["x\r"]);
    assert_eq!(lines(""), Vec::<String>::new());
    for s in ["a\nb", "\n", "a\r\n\r\nb\r\n", "no newline"] {
        assert_eq!(lines(s), s.lines().map(str::to_string).collect::<Vec<_>>(), "{s:?}");
    }
}

#[test]
fn numbers_as_text() {
    assert_eq!(u64_text(0), "0");
    assert_eq!(u64_text(1700000000), "1700000000");
    assert_eq!(u64_text(u64::MAX), u64::MAX.to_string());
    assert_eq!(i64_text(-42), "-42");
    assert_eq!(i64_text(i64::MIN), i64::MIN.to_string());
}

#[test]
fn string_tests() {
    assert!(starts_with("https://x", "https://"));
    assert!(!starts_with("http", "https://"));
    assert!(ends_with("a.desktop", ".desktop"));
    assert!(contains("music.youtube.com", "youtube"));
    assert!(!contains("yt", "youtube"));
    assert!(contains("abc", ""));
    assert_eq!(strip_prefix("VLPL1", "VL").as_deref(), Some("PL1"));
    assert_eq!(strip_prefix("PL1", "VL"), None);
    assert!(str_eq("a", "a"));
    assert!(!str_eq("a", "b"));
    assert_eq!(to_ascii_lowercase("DiMiSCO Ä"), "dimisco Ä");
}

#[test]
fn order_is_code_point_order() {
    assert!(str_lt("api_key", "method"));
    assert!(str_lt("a", "ab"));
    assert!(!str_lt("ab", "a"));
    assert!(!str_lt("x", "x"));
    assert!(str_lt("Z", "a"));
    assert!(str_lt("z", "é"));
}

#[test]
fn building_strings() {
    let mut s = owned("ab");
    push_str(&mut s, "cd");
    assert_eq!(s, "abcd");
    let v: Vec<char> = "hello".chars().collect();
    assert_eq!(string_of(&v, 1, 4), "ell");
    assert!(chars_eq(&v, &"hello".chars().collect()));
}
