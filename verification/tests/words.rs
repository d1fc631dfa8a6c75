use theseus::words::{is_whitespace, parse_usize, split_whitespace};

fn chars(s: &str) -> Vec<char> {
    s.chars().collect()
}

fn split(s: &str) -> Vec<String> {
    split_whitespace(&chars(s)).into_iter().map(|w| w.into_iter().collect()).collect()
}

#[test]
fn whitespace_is_unicode_white_space() {
    for c in [' ', '\t', '\n', '\r', '\u{0B}', '\u{0C}', '\u{85}', '\u{A0}', '\u{2003}', '\u{3000}'] {
        assert!(is_whitespace(c));
        assert!(c.is_whitespace());
    }
    for c in ['a', '0', '_', '\u{200B}'] {
        assert!(!is_whitespace(c));
        assert!(!c.is_whitespace());
    }
}

#[test]
fn split_matches_std() {
    for s in ["", "   ", "ls", "  cd   /tmp  ", "a\tb\nc", "fg 3", "x\u{A0}y"] {
        let ours = split(s);
        let std: Vec<String> = s.split_whitespace().map(|w| w.to_owned()).collect();
        assert_eq!(ours, std);
    }
}

#[test]
fn parse_usize_matches_std() {
    for s in ["0", "42", "+7", "007", "", "+", "-1", "1a", "18446744073709551615", "18446744073709551616", " 1"] {
        assert_eq!(parse_usize(&chars(s)), s.parse::<usize>().ok(), "{s:?}");
    }
}
