use impact_map_cli::text::{chars_of, push_decimal_i64, push_decimal_u64, push_decimal_usize, replace_all, same_text};

#[test]
fn replace_all_is_leftmost_and_non_overlapping() {
    assert_eq!(replace_all("aaa", "aa", "b"), "ba");
    assert_eq!(replace_all("abcabc", "bc", "X"), "aXaX");
    assert_eq!(replace_all("", "a", "b"), "");
    assert_eq!(replace_all("xyz", "q", "r"), "xyz");
    assert_eq!(replace_all("äöü ä", "ä", "ae"), "aeöü ae");
    for (t, p, r) in [("a&b&&c", "&", "&amp;"), ("<<=>=>", ">=", "&ge;"), ("ababab", "aba", "-")] {
        assert_eq!(replace_all(t, p, r), t.replace(p, r));
    }
}

#[test]
fn decimal_rendering() {
    for v in [0i64, 7, -7, 10, 42, -100, 1234567890, i64::MAX, i64::MIN] {
        let mut s = String::from("x");
        push_decimal_i64(&mut s, v);
        assert_eq!(s, format!("x{}", v));
    }
    let mut s = String::new();
    push_decimal_u64(&mut s, u64::MAX);
    assert_eq!(s, u64::MAX.to_string());
    let mut s = String::new();
    push_decimal_usize(&mut s, 10);
    assert_eq!(s, "10");
}

#[test]
fn text_comparison_and_characters() {
    assert!(same_text("goal", "goal"));
    assert!(!same_text("goal", "goals"));
    assert!(!same_text("Goal", "goal"));
    assert!(same_text("", ""));
    assert_eq!(chars_of("Grüße"), vec!['G', 'r', 'ü', 'ß', 'e']);
}
