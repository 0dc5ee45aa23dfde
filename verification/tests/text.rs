//! The text helpers, held against what the standard library does.

use fishtank::text;

const SAMPLES: [&str; 12] = [
    "",
    " ",
    "a",
    "  Mixed Case : v \t",
    "one\ntwo\r\nthree\r",
    "\n\nx\n",
    "a|b||c|",
    "|",
    "grün — ÄÖ • [x]",
    "\u{a0}nbsp\u{3000}",
    "key:value:more",
    "0123456789",
];

fn strings(v: &[Vec<char>]) -> Vec<String> {
    v.iter().map(|p| p.iter().collect()).collect()
}

#[test]
fn splitting_agrees_with_std() {
    for s in SAMPLES {
        let v = text::chars_of(s);
        assert_eq!(text::string_of(&v), s);
        assert_eq!(strings(&text::lines_of(&v)), s.lines().collect::<Vec<_>>());
        assert_eq!(
            strings(&text::words_of(&v)),
            s.split_whitespace().collect::<Vec<_>>()
        );
        assert_eq!(
            strings(&text::split_at(&v, '|')),
            s.split('|').collect::<Vec<_>>()
        );
        let halves = text::halves(&v, ':')
            .map(|(a, b)| (text::string_of(&a), text::string_of(&b)));
        assert_eq!(
            halves,
            s.split_once(':').map(|(a, b)| (a.to_string(), b.to_string()))
        );
        assert_eq!(text::string_of(&text::trimmed(&v)), s.trim());
    }
}

#[test]
fn case_and_search_agree_with_std() {
    for s in SAMPLES {
        let v = text::chars_of(s);
        assert_eq!(text::string_of(&text::to_lower(&v)), s.to_ascii_lowercase());
        assert_eq!(text::string_of(&text::to_upper(&v)), s.to_ascii_uppercase());
        for word in ["", "a", "case", "|", "value:", "Ä"] {
            assert_eq!(text::contains(&v, word), s.contains(word));
            assert_eq!(text::spells(&v, word), s == word);
            assert_eq!(text::same(s, word), s == word);
            assert_eq!(
                text::spells_any_case(&v, word),
                s.eq_ignore_ascii_case(word)
            );
        }
    }
}

#[test]
fn numbers_agree_with_std() {
    for n in [0u64, 7, 9, 10, 42, 255, 256, 4096, u64::MAX] {
        assert_eq!(text::to_decimal(n), n.to_string());
        assert_eq!(text::to_numeral(n, 16), format!("{n:x}"));
        assert_eq!(text::to_numeral(n, 2), format!("{n:b}"));
    }
    for s in [
        "", "0", "+5", "++5", "-1", "4294967295", "4294967296", "00012", "12x", "+",
        "99999999999999999999999999",
    ] {
        assert_eq!(
            text::reads_as_number(&text::chars_of(s)),
            s.parse::<u32>().is_ok(),
            "{s}"
        );
    }
}

#[test]
fn padding_agrees_with_std() {
    for s in ["", "7", "123", "12345", "ä"] {
        assert_eq!(text::padded_left(s, 3, ' '), format!("{s:>3}"));
        assert_eq!(
            text::string_of(&text::padded_right(&text::chars_of(s), 4)),
            format!("{s:<4}")
        );
    }
    assert_eq!(text::padded_left("42", 6, '0'), "000042");
}

#[test]
fn joining() {
    let words = text::words_of(&text::chars_of("a  b c"));
    assert_eq!(text::join_words(&words, 1), "b c");
    assert_eq!(text::join_words(&words, 3), "");
    assert_eq!(text::join2("a", "b"), "ab");
    assert_eq!(text::join3("a", "", "c"), "ac");
    assert_eq!(text::copy_option(&Some("x".to_string())).as_deref(), Some("x"));
    assert_eq!(text::copy_option(&None), None);
}

#[test]
fn white_space_is_the_unicode_property() {
    for n in 0..0x110000u32 {
        if let Some(c) = char::from_u32(n) {
            assert_eq!(text::is_space(c), c.is_whitespace());
        }
    }
}

#[test]
fn the_order_of_texts_agrees_with_std() {
    for a in SAMPLES {
        for b in SAMPLES {
            assert_eq!(text::is_before(a, b), a < b);
        }
    }
    assert!(text::is_before("2024-01-09", "2024-01-10"));
    assert!(text::is_before("2024", "2024-01"));
    assert!(!text::is_before("2024", "2024"));
}
