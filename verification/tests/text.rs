use button_hub::text::{decimal_text, is_blank, is_white_space, parse_ids, trim_text};

/// parse_ids as used by the initiative tracker's main.
#[test]
fn parse_ids_splits_trims_and_drops_empty() {
    assert_eq!(parse_ids("a, b ,c"), vec!["a", "b", "c"]);
    assert_eq!(parse_ids(" btn1 ,, ,btn2,"), vec!["btn1", "btn2"]);
    assert_eq!(parse_ids(""), Vec::<String>::new());
    assert_eq!(parse_ids(",,,"), Vec::<String>::new());
    assert_eq!(parse_ids("Timer 1,Timer 2,Timer 3"), vec!["Timer 1", "Timer 2", "Timer 3"]);
}

#[test]
fn parse_ids_matches_std_split_trim_filter() {
    for s in ["x", " x ", "a,b", ",a", "a,", "\tq\n,  r", "é , ü", "a b,c d"] {
        let expected: Vec<String> = s
            .split(',')
            .map(|p| p.trim().to_string())
            .filter(|p| !p.is_empty())
            .collect();
        assert_eq!(parse_ids(s), expected);
    }
}

#[test]
fn white_space_matches_std_for_every_char() {
    for u in 0u32..=0x10FFFF {
        if let Some(c) = char::from_u32(u) {
            assert_eq!(is_white_space(c), c.is_whitespace(), "char U+{:04X}", u);
        }
    }
}

#[test]
fn trim_matches_std() {
    for s in ["", "   ", " a ", "\u{3000}x\u{2028}", "a b", "\n\tz\r\n"] {
        assert_eq!(trim_text(s), s.trim());
    }
    assert!(is_blank("   "));
    assert!(is_blank(""));
    assert!(!is_blank(" a "));
}

#[test]
fn decimal_text_values() {
    assert_eq!(decimal_text(0), "0");
    assert_eq!(decimal_text(7), "7");
    assert_eq!(decimal_text(10), "10");
    assert_eq!(decimal_text(1234567890), "1234567890");
    assert_eq!(decimal_text(u64::MAX), u64::MAX.to_string());
}
