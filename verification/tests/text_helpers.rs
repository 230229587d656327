use minigrep::arg_parser::{parse_arguments, ParseOutcome};
use minigrep::searcher::printed_line;
use minigrep::text::{chars_of, decimal_chars, parse_u16, split_on_bar, trim_chars, white_space};

#[test]
fn white_space_agrees_with_std() {
    for code in 0u32..=0x10FFFF {
        if let Some(c) = char::from_u32(code) {
            assert_eq!(white_space(c), c.is_whitespace(), "code point {:x}", code);
        }
    }
}

#[test]
fn trimming_agrees_with_std() {
    for s in ["", "   ", " a ", "\u{2028}b\u{205f}", "\t\n x y \r\n", "no-space", "\u{85}z"] {
        assert_eq!(printed_line(s), s.trim());
        let v = chars_of(s);
        let t: String = trim_chars(&v).into_iter().collect();
        assert_eq!(t, s.trim());
    }
}

#[test]
fn decimal_numbers() {
    for n in [0usize, 7, 10, 99, 100, 65535, 1234567890] {
        let s: String = decimal_chars(n).into_iter().collect();
        assert_eq!(s, n.to_string());
    }
}

#[test]
fn counts_agree_with_std() {
    for n in 0u32..=70000 {
        let s = n.to_string();
        assert_eq!(parse_u16(&chars_of(&s)), s.parse::<u16>().ok());
    }
    for s in ["", "+", "-", "-0", "+0", "+65535", "065535", "1 ", " 1", "1_0", "١", "00000000000000000000001"] {
        assert_eq!(parse_u16(&chars_of(s)), s.parse::<u16>().ok(), "{:?}", s);
    }
}

#[test]
fn splitting_agrees_with_std() {
    for s in ["", "|", "a", "a|b", "||", "a||b|", "é|ü"] {
        let expect: Vec<String> = s.split('|').map(|p| p.to_string()).collect();
        assert_eq!(split_on_bar(&chars_of(s)), expect);
    }
}

#[test]
fn program_name_is_read_too() {
    // every word is read, the first one included
    match parse_arguments(vec!["-c".to_string(), "x".to_string()], ".".to_string(), true) {
        Ok(ParseOutcome::Run(a)) => assert_eq!(a.get_search_terms_or(), &["x".to_string()][..]),
        _ => panic!("expected a search"),
    }
}
