use rbatis::text::{
    contains, contains_outside_quotes, is_white_space, joined, part_of, replaced_first,
    starts_in_any_case, starts_with, trim,
};

#[test]
fn white_space_is_that_of_unicode() {
    for n in 0..=0x10ffffu32 {
        if let Some(c) = char::from_u32(n) {
            assert_eq!(is_white_space(c), c.is_whitespace(), "{:x}", n);
        }
    }
}

#[test]
fn trim_takes_white_space_off_both_ends() {
    for s in ["", " ", " \t\u{3000}a b\r\n", "a", "\u{85}é\u{2028}", "\u{200b}x\u{200b}", " a\u{a0}"] {
        assert_eq!(trim(s), s.trim());
    }
}

#[test]
fn searching_agrees_with_std() {
    let texts = ["", "a", "aa", "ab", "aab", "abab", "ébé", "b é", "aaab"];
    for s in texts {
        for part in texts {
            assert_eq!(starts_with(s, part), s.starts_with(part), "{} {}", s, part);
            assert_eq!(contains(s, part), s.contains(part), "{} {}", s, part);
            assert_eq!(replaced_first(s, part, "-é-"), s.replacen(part, "-é-", 1), "{} {}", s, part);
        }
    }
}

#[test]
fn parts_and_joins() {
    assert_eq!(part_of("aébc", 1, 3), "éb");
    assert_eq!(joined("a", "", "é"), "aé");
}

#[test]
fn letters_of_ascii_are_compared_in_any_case() {
    for n in 0..=0x24fu32 {
        let c = char::from_u32(n).unwrap();
        for m in 0..=0x24fu32 {
            let d = char::from_u32(m).unwrap();
            let same = c.eq_ignore_ascii_case(&d);
            assert_eq!(starts_in_any_case(&c.to_string(), &d.to_string()), same, "{:x} {:x}", n, m);
        }
    }
    assert!(starts_in_any_case("aBc", "Ab"));
    assert!(starts_in_any_case("aBc", ""));
    assert!(!starts_in_any_case("aB", "abc"));
}

#[test]
fn quoted_parts_are_not_searched() {
    assert!(contains_outside_quotes("a X b", " x "));
    assert!(!contains_outside_quotes("a' x 'b", " x "));
    assert!(!contains_outside_quotes("a` x `b", " x "));
    assert!(!contains_outside_quotes("a\" x \"b", " x "));
    assert!(!contains_outside_quotes("\"it's x \"'", " x "));
    assert!(contains_outside_quotes("'' x ''", " x "));
    assert!(contains_outside_quotes("it's x ", " x "));
    assert!(contains_outside_quotes("'a' 'b'", "'' ''"));
    assert!(contains_outside_quotes("", ""));
    assert!(!contains_outside_quotes("", "x"));
}
