use obscura_solverr::text::{
    chars_of, contains_chars, is_blank_str, parse_usize, push_decimal, str_eq,
    trim_bounds,
};

fn parse(s: &str) -> Option<usize> {
    let v = chars_of(s);
    parse_usize(&v, 0, v.len())
}

#[test]
fn parses_like_std() {
    for s in ["0", "007", "+5", "", "+", "-", "-1", "1 ", "12a", "18446744073709551615", "18446744073709551616", "++1"] {
        assert_eq!(parse(s), s.parse::<usize>().ok(), "{s:?}");
    }
}

#[test]
fn decimal_rendering() {
    for n in [0u64, 7, 10, 1234567890, u64::MAX] {
        let mut s = String::from("x");
        push_decimal(&mut s, n);
        assert_eq!(s, format!("x{n}"));
    }
}

#[test]
fn trims_like_std() {
    for s in ["  a b \t", "\u{3000}x\u{85}", "", "   ", "abc"] {
        let v = chars_of(s);
        let (lo, hi) = trim_bounds(&v, 0, v.len());
        let got: String = v[lo..hi].iter().collect();
        assert_eq!(got, s.trim());
        assert_eq!(is_blank_str(s), s.trim().is_empty());
    }
}

#[test]
fn search_and_compare() {
    assert!(contains_chars(&chars_of("hello world"), &chars_of("o w")));
    assert!(contains_chars(&chars_of("abc"), &chars_of("")));
    assert!(!contains_chars(&chars_of("ab"), &chars_of("abc")));
    assert!(str_eq("é", "é"));
    assert!(!str_eq("a", "ab"));
}
