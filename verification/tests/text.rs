use fin::text::{
    blank, chars_of, compare, contains_text, copy_texts, decimal_of, ends_with_text, has_char,
    is_space_char, join_all, lower_char_of, occurs_at_of, padded_of, parse_u64_of, replace_char,
    same, signed_decimal_of, sort_texts, starts_with_text, string_of, to_lower, trim_bounds,
    trimmed, trimmed_end, truncate, upper_char_of, Order,
};

#[test]
fn trimming_follows_strs_own_notion_of_white_space() {
    for s in ["", "  a b  ", "\u{3000}x\u{a0}", "\t\n", "æ ø "] {
        assert_eq!(trimmed(s), s.trim(), "{s:?}");
        assert_eq!(trimmed_end(s), s.trim_end(), "{s:?}");
        assert_eq!(blank(s), s.trim().is_empty(), "{s:?}");
    }
    let v = chars_of("  ab ");
    assert_eq!(trim_bounds(&v), (2, 4));
    assert!(is_space_char('\u{2009}'));
    assert!(!is_space_char('…'));
}

#[test]
fn case_folding_touches_ascii_letters_only() {
    assert_eq!(to_lower("GitHub ÆØ"), "github ÆØ");
    assert_eq!(lower_char_of('Q'), 'q');
    assert_eq!(upper_char_of('q'), 'Q');
    assert_eq!(upper_char_of('7'), '7');
}

#[test]
fn numbers_read_and_write_in_decimal() {
    assert_eq!(decimal_of(0), "0");
    assert_eq!(decimal_of(18_446_744_073_709_551_615), "18446744073709551615");
    assert_eq!(padded_of(7, 3), "007");
    assert_eq!(padded_of(1234, 2), "1234");
    assert_eq!(signed_decimal_of(-42), "-42");
    assert_eq!(signed_decimal_of(2026), "2026");
    assert_eq!(parse_u64_of("42"), Some(42));
    assert_eq!(parse_u64_of("+42"), Some(42));
    assert_eq!(parse_u64_of("18446744073709551616"), None);
    assert_eq!(parse_u64_of(""), None);
    assert_eq!(parse_u64_of("4 2"), None);
}

#[test]
fn texts_compare_character_by_character() {
    assert_eq!(compare("a", "b"), Order::Less);
    assert_eq!(compare("ab", "a"), Order::Greater);
    assert_eq!(compare("a", "ab"), Order::Less);
    assert_eq!(compare("same", "same"), Order::Same);
    assert!(same("x", "x"));
    assert!(!same("x", "X"));
}

#[test]
fn sorting_texts_orders_them_and_keeps_every_one() {
    let mut v = vec!["b".to_string(), "a".to_string(), "b".to_string(), "".to_string()];
    sort_texts(&mut v);
    assert_eq!(v, vec!["", "a", "b", "b"]);
    assert_eq!(copy_texts(&v), v);
    assert_eq!(join_all(&v, ","), ",a,b,b");
    assert_eq!(join_all(&Vec::new(), ","), "");
}

#[test]
fn searching_within_texts() {
    assert!(has_char("a|b", '|'));
    assert!(!has_char("ab", '|'));
    assert!(contains_text("merged:2026", "ged:"));
    assert!(contains_text("x", ""));
    assert!(!contains_text("ab", "abc"));
    assert!(starts_with_text("https://x", "https://"));
    assert!(!starts_with_text("http", "https"));
    assert!(ends_with_text("a.json", ".json"));
    assert!(occurs_at_of(&chars_of("abcd"), &chars_of("cd"), 2));
    assert!(!occurs_at_of(&chars_of("abcd"), &chars_of("cd"), 3));
    assert_eq!(replace_char("a|b|c", '|', "\\|"), "a\\|b\\|c");
    assert_eq!(string_of(&chars_of("æøå"), 1, 3), "øå");
}

#[test]
fn truncation_keeps_whole_characters_and_marks_the_cut() {
    assert_eq!(truncate("  short  ", 300), "short");
    assert_eq!(truncate("abcdef", 3), "abc…");
    assert_eq!(truncate("abc", 3), "abc");
    assert_eq!(truncate("abc", 0), "…");
}
