use citadel::text::equals_ignoring_ascii_case;
use citadel::text::first_chars;
use citadel::text::push_decimal;
use citadel::text::push_signed_decimal;
use citadel::text::text_equals;
use citadel::text::trim;

#[test]
fn decimals() {
    let mut s = String::new();
    push_decimal(&mut s, 0);
    assert_eq!(s, "0");
    let mut s = String::from("n=");
    push_decimal(&mut s, u64::MAX);
    assert_eq!(s, format!("n={}", u64::MAX));
    let mut s = String::new();
    push_signed_decimal(&mut s, i32::MIN);
    assert_eq!(s, "-2147483648");
    let mut s = String::new();
    push_signed_decimal(&mut s, 42);
    assert_eq!(s, "42");
    let mut s = String::new();
    push_signed_decimal(&mut s, -7);
    assert_eq!(s, "-7");
}

#[test]
fn trimming_matches_std() {
    for t in ["", "  ", " a ", "\t\nabc \r\n", "\u{3000}x\u{A0}", "a b", "\u{85}\u{2028}"] {
        assert_eq!(trim(t), t.trim());
    }
}

#[test]
fn case_insensitive_comparison() {
    assert!(equals_ignoring_ascii_case("EXIT", "exit"));
    assert!(equals_ignoring_ascii_case("QuIt", "quit"));
    assert!(!equals_ignoring_ascii_case("exits", "exit"));
    assert!(!equals_ignoring_ascii_case("éxit", "exit"));
    assert!(equals_ignoring_ascii_case("", ""));
}

#[test]
fn prefixes_and_equality() {
    assert_eq!(first_chars("héllo world", 3), "hél");
    assert_eq!(first_chars("ab", 50), "ab");
    let long = "x".repeat(60);
    assert_eq!(first_chars(&long, 50), format!("{:.50}", long));
    assert!(text_equals("abc", "abc"));
    assert!(!text_equals("abc", "abd"));
}
