use spark::text::{char_is_white_space, chars_of, parse_usize_in, push_decimal, string_of, trimmed};

#[test]
fn white_space_matches_std_for_every_char() {
    for u in 0u32..=0x10FFFF {
        if let Some(c) = char::from_u32(u) {
            assert_eq!(char_is_white_space(c), c.is_whitespace(), "U+{:04X}", u);
        }
    }
}

#[test]
fn trimmed_matches_std() {
    for s in ["", "  ", " a ", "\u{3000}x\u{2028}", "\t* \n", "ab", " a b "] {
        let v = chars_of(s);
        assert_eq!(string_of(&trimmed(&v)), s.trim());
    }
}

#[test]
fn parse_matches_std() {
    let cases = [
        "", "+", "-", "0", "+0", "-0", "12", "+12", "++1", "1a", " 1", "007",
        "18446744073709551615", "18446744073709551616", "99999999999999999999999", "\u{663}",
    ];
    for s in cases {
        let v = chars_of(s);
        assert_eq!(parse_usize_in(&v, 0, v.len()), s.parse::<usize>().ok(), "{:?}", s);
    }
}

#[test]
fn parse_reads_a_range() {
    let v = chars_of("ab+42cd");
    assert_eq!(parse_usize_in(&v, 2, 5), Some(42));
    assert_eq!(parse_usize_in(&v, 1, 5), None);
}

#[test]
fn decimal_matches_std() {
    for n in [0usize, 7, 10, 99, 100, 12345, usize::MAX] {
        let mut out = vec!['x'];
        push_decimal(&mut out, n);
        let s: String = out[1..].iter().collect();
        assert_eq!(out[0], 'x');
        assert_eq!(s, n.to_string());
    }
}
