use backend_supervisor::text::{
    char_is_space, chars_of, decimal_string, find, first_word_of, last_word_of, parse_decimal,
    push_decimal, same_text, starts_at, string_of, trimmed_of,
};

fn text(chars: &Vec<char>) -> String {
    string_of(chars)
}

#[test]
fn chars_and_back() {
    let chars = chars_of("héllo wörld");
    assert_eq!(chars.len(), 11);
    assert_eq!(chars[1], 'é');
    assert_eq!(text(&chars), "héllo wörld");
    assert_eq!(text(&chars_of("")), "");
}

#[test]
fn white_space_is_the_unicode_set() {
    for c in [' ', '\t', '\n', '\u{0B}', '\u{0C}', '\r', '\u{85}', '\u{A0}', '\u{1680}', '\u{2000}',
        '\u{200A}', '\u{2028}', '\u{2029}', '\u{202F}', '\u{205F}', '\u{3000}']
    {
        assert!(char_is_space(c), "{:?}", c);
    }
    for c in ['a', '0', '_', '\u{08}', '\u{0E}', '\u{200B}', '\u{FEFF}', '\u{1F}', '\u{2001}'] {
        assert_eq!(char_is_space(c), c.is_whitespace(), "{:?}", c);
    }
}

#[test]
fn white_space_agrees_with_std_everywhere() {
    let mut n: u32 = 0;
    while n <= 0x10FFFF {
        if let Some(c) = char::from_u32(n) {
            assert_eq!(char_is_space(c), c.is_whitespace(), "U+{:04X}", n);
        }
        n += 1;
    }
}

#[test]
fn find_gives_first_occurrence() {
    let hay = chars_of("abcabcabc");
    let pat = chars_of("bc");
    assert_eq!(find(&hay, &pat, 0), Some(1));
    assert_eq!(find(&hay, &pat, 1), Some(1));
    assert_eq!(find(&hay, &pat, 2), Some(4));
    assert_eq!(find(&hay, &pat, 8), None);
    assert_eq!(find(&hay, &pat, 100), None);
    assert_eq!(find(&hay, &chars_of("x"), 0), None);
    assert_eq!(find(&chars_of("ab"), &chars_of("abc"), 0), None);
    assert_eq!(find(&hay, &chars_of(""), 9), Some(9));
    assert_eq!(find(&hay, &chars_of(""), 10), None);
}

#[test]
fn starts_at_checks_one_place() {
    let hay = chars_of("abcabc");
    assert!(starts_at(&hay, &chars_of("abc"), 0));
    assert!(starts_at(&hay, &chars_of("abc"), 3));
    assert!(!starts_at(&hay, &chars_of("abc"), 1));
    assert!(!starts_at(&hay, &chars_of("abc"), 4));
    assert!(!starts_at(&hay, &chars_of("abc"), 40));
}

#[test]
fn words_and_blanks() {
    let chars = chars_of("  \t4321 rest ");
    assert_eq!(text(&first_word_of(&chars)), "4321");
    assert_eq!(text(&last_word_of(&chars)), "rest");
    assert_eq!(text(&trimmed_of(&chars)), "4321 rest");
    assert_eq!(text(&first_word_of(&chars_of("   "))), "");
    assert_eq!(text(&trimmed_of(&chars_of(" \n "))), "");
    assert_eq!(text(&first_word_of(&chars_of(""))), "");
    assert_eq!(text(&trimmed_of(&chars_of("x"))), "x");
}

#[test]
fn words_agree_with_split_whitespace() {
    for s in ["", " ", "a", " a", "a ", "  ab  cd ", "\u{3000}x\u{A0}y", "\t\n", "12\r\n"] {
        let first = s.split_whitespace().next().unwrap_or("");
        let last = s.split_whitespace().last().unwrap_or("");
        assert_eq!(text(&first_word_of(&chars_of(s))), first, "{:?}", s);
        assert_eq!(text(&last_word_of(&chars_of(s))), last, "{:?}", s);
        assert_eq!(text(&trimmed_of(&chars_of(s))), s.trim(), "{:?}", s);
    }
}

#[test]
fn parse_decimal_reads_plain_number() {
    assert_eq!(parse_decimal(&chars_of("4321"), 65535), Some(4321));
    assert_eq!(parse_decimal(&chars_of("0"), 65535), Some(0));
    assert_eq!(parse_decimal(&chars_of("65535"), 65535), Some(65535));
    assert_eq!(parse_decimal(&chars_of("+80"), 65535), Some(80));
    assert_eq!(parse_decimal(&chars_of("0004321"), 65535), Some(4321));
    assert_eq!(parse_decimal(&chars_of("00000000000000000000000000007"), 65535), Some(7));
    assert_eq!(
        parse_decimal(&chars_of("18446744073709551615"), u64::MAX),
        Some(u64::MAX)
    );
}

#[test]
fn parse_decimal_rejects_what_is_no_number() {
    for s in ["", "+", "-", "-1", "++1", "+-1", "12a", "a12", " 12", "12 ", "1_000", "١٢", "65536",
        "99999999999999999999999"]
    {
        assert_eq!(parse_decimal(&chars_of(s), 65535), None, "{:?}", s);
    }
    assert_eq!(parse_decimal(&chars_of("18446744073709551616"), u64::MAX), None);
    assert_eq!(parse_decimal(&chars_of("6"), 5), None);
    assert_eq!(parse_decimal(&chars_of("10"), 9), None);
}

#[test]
fn parse_decimal_agrees_with_std_on_u16() {
    for s in ["0", "1", "+1", "007", "65535", "65536", "70000", "", "+", "x", "4321", "+4321",
        "43 21", "65535 "]
    {
        let want = s.parse::<u16>().ok().map(|n| n as u64);
        assert_eq!(parse_decimal(&chars_of(s), 65535), want, "{:?}", s);
    }
}

#[test]
fn push_decimal_writes_digits() {
    let mut out: Vec<char> = Vec::new();
    push_decimal(&mut out, 5040);
    assert_eq!(out, vec!['5', '0', '4', '0']);
    push_decimal(&mut out, 0);
    assert_eq!(text(&out), "50400");
    let mut big: Vec<char> = Vec::new();
    push_decimal(&mut big, u64::MAX);
    assert_eq!(text(&big), "18446744073709551615");
}

#[test]
fn written_numbers_read_back() {
    for n in [0u64, 1, 9, 10, 99, 100, 4321, 5000, 65535, 1_000_000, u64::MAX] {
        let mut out: Vec<char> = Vec::new();
        push_decimal(&mut out, n);
        assert_eq!(text(&out), n.to_string());
        assert_eq!(decimal_string(n), n.to_string());
        assert_eq!(parse_decimal(&out, u64::MAX), Some(n));
    }
}

#[test]
fn same_text_compares_characters() {
    assert!(same_text("src-tauri", "src-tauri"));
    assert!(same_text("", ""));
    assert!(!same_text("src-tauri", "src-taurj"));
    assert!(!same_text("src", "src-tauri"));
    assert!(!same_text("a", ""));
}
