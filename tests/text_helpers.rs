use purescript_language_server::text::{
    chars_of, decimal_string, is_whitespace, str_contains, str_eq, str_starts_with, trimmed,
    trimmed_end,
};

#[test]
fn whitespace_matches_std_for_every_char_up_to_the_ideographic_space() {
    for u in 0u32..=0x3000 {
        if let Some(c) = char::from_u32(u) {
            assert_eq!(is_whitespace(c), c.is_whitespace(), "U+{:04X}", u);
        }
    }
    for u in [0xFEFFu32, 0x10FFFF, 0x180E, 0x200B] {
        let c = char::from_u32(u).unwrap();
        assert_eq!(is_whitespace(c), c.is_whitespace(), "U+{:04X}", u);
    }
}

#[test]
fn trimming_matches_std() {
    for s in ["", "  ", " a ", "\u{3000}x\u{a0}", "a b", "\t\r\nq\u{2028}", "\u{85}z\u{200a}"] {
        assert_eq!(trimmed(s), s.trim(), "{:?}", s);
        assert_eq!(trimmed_end(s), s.trim_end(), "{:?}", s);
    }
}

#[test]
fn search_matches_std() {
    let cases = [("", ""), ("abc", ""), ("abc", "bc"), ("abc", "abcd"), ("a::b", "::"), ("ab", "ba"), ("héllo", "llo")];
    for (hay, needle) in cases {
        assert_eq!(str_contains(hay, needle), hay.contains(needle), "{:?} {:?}", hay, needle);
        assert_eq!(str_starts_with(hay, needle), hay.starts_with(needle), "{:?} {:?}", hay, needle);
        assert_eq!(str_eq(hay, needle), hay == needle);
    }
}

#[test]
fn decimal_matches_to_string() {
    for n in [0u64, 7, 9, 10, 99, 100, 12345, u32::MAX as u64, u64::MAX] {
        assert_eq!(decimal_string(n), n.to_string());
    }
}

#[test]
fn chars_are_kept_in_order() {
    assert_eq!(chars_of("aé\u{1F600}"), vec!['a', 'é', '\u{1F600}']);
}
