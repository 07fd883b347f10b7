use facecam::text::{
    contains, decimal_text, find_prefixed, join, lines_of, parse_natural, path_below, push_hex,
    push_opt_byte, push_opt_text, push_padded_left, push_padded_right, signed_text, sorted,
    starts_with, strip, strip_prefixes, trim, truth_text,
};

fn strings(items: &[&str]) -> Vec<String> {
    items.iter().map(|s| s.to_string()).collect()
}

#[test]
fn numbers_are_written_in_decimal_and_hexadecimal() {
    assert_eq!(decimal_text(0), "0");
    assert_eq!(decimal_text(u64::MAX), format!("{}", u64::MAX));
    assert_eq!(signed_text(-17), "-17");
    assert_eq!(signed_text(i64::MIN), format!("{}", i64::MIN));
    let mut out = String::from("0x");
    push_hex(&mut out, 0x0fd9, 4);
    assert_eq!(out, "0x0fd9");
    let mut wide = String::new();
    push_hex(&mut wide, 0x1234, 8);
    assert_eq!(wide, format!("{:08x}", 0x1234));
}

#[test]
fn padding_follows_the_width() {
    let mut out = String::new();
    push_padded_left(&mut out, "9", 2, '0');
    push_padded_right(&mut out, "ab", 4);
    push_padded_left(&mut out, "12345", 3, ' ');
    assert_eq!(out, "09ab  12345");
}

#[test]
fn trimming_removes_space_at_both_ends() {
    assert_eq!(trim(" \t 1\n"), "1");
    assert_eq!(trim("\u{2003}x y\u{85}"), "\u{2003}x y\u{85}".trim());
    assert_eq!(trim("   "), "");
    assert_eq!(strip("\"\"Ubuntu\"", '"'), "Ubuntu");
    assert_eq!(strip_prefixes("A=A=b", "A="), "b");
}

#[test]
fn lines_end_with_or_without_carriage_return() {
    let text = "a\r\nb\n\nc\r";
    let expected: Vec<&str> = text.lines().collect();
    assert_eq!(lines_of(text), expected);
    assert_eq!(lines_of(""), Vec::<String>::new());
    assert_eq!(lines_of("x\n"), vec!["x"]);
}

#[test]
fn prefixes_and_patterns_are_found() {
    assert!(starts_with("video0", "video"));
    assert!(!starts_with("vid", "video"));
    assert!(contains("10000", "1000"));
    assert!(contains("abc", ""));
    assert!(!contains("480", "5000"));
    let lines = strings(&["A=1", "B=2", "B=3"]);
    assert_eq!(find_prefixed(&lines, "B="), 1);
    assert_eq!(find_prefixed(&lines, "C="), 3);
}

#[test]
fn numbers_are_parsed_up_to_a_limit() {
    assert_eq!(parse_natural("255", 255), Some(255));
    assert_eq!(parse_natural("256", 255), None);
    assert_eq!(parse_natural("+007", 255), Some(7));
    assert_eq!(parse_natural("", 255), None);
    assert_eq!(parse_natural("+", 255), None);
    assert_eq!(parse_natural("-1", 255), None);
    assert_eq!(parse_natural("1 ", 255), None);
    assert_eq!(parse_natural("4294967295", u32::MAX), Some(u32::MAX));
    assert_eq!(parse_natural("4294967296", u32::MAX), None);
}

#[test]
fn sorting_orders_texts_by_their_characters() {
    let mut expected = strings(&["b", "a", "ab", "a", "é", "B"]);
    let items = expected.clone();
    expected.sort();
    assert_eq!(sorted(items), expected);
    assert_eq!(join(&expected, ", "), expected.join(", "));
    assert_eq!(join(&Vec::new(), ", "), "");
}

#[test]
fn paths_get_one_slash() {
    assert_eq!(path_below("/sys/x", "authorized"), "/sys/x/authorized");
    assert_eq!(path_below("/", "tmp"), "/tmp");
    assert_eq!(path_below("", ".config"), ".config");
}

#[test]
fn optional_values_are_shown_as_some_or_none() {
    let mut out = String::new();
    push_opt_text(&mut out, &Some("5000".to_string()));
    push_opt_text(&mut out, &None);
    push_opt_byte(&mut out, Some(7));
    push_opt_byte(&mut out, None);
    assert_eq!(out, "Some(\"5000\")NoneSome(7)None");
    let mut escaped = String::new();
    push_opt_text(&mut escaped, &Some("a\"b\\c\n".to_string()));
    assert_eq!(escaped, format!("{:?}", Some("a\"b\\c\n")));
    assert_eq!(truth_text(true), "true");
    assert_eq!(truth_text(false), "false");
}
