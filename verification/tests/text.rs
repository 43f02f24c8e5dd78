use razer_control::float_text::parse_float_thousandths_or_zero;
use razer_control::numbers::{
    all_digits_span, parse_digits, parse_signed_or_zero, parse_unsigned_or_zero,
};
use razer_control::text::{chars_of, first_nonblank_line, is_space_char, split_spans, trim_span};

fn text(v: &[char], sp: (usize, usize)) -> String {
    v[sp.0..sp.1].iter().collect()
}

#[test]
fn chars_follow_the_string() {
    assert_eq!(chars_of("aé b"), vec!['a', 'é', ' ', 'b']);
    assert!(chars_of("").is_empty());
}

#[test]
fn whitespace_is_unicode_white_space() {
    for c in [' ', '\t', '\n', '\r', '\u{0B}', '\u{0C}', '\u{85}', '\u{A0}', '\u{2003}', '\u{3000}'] {
        assert!(is_space_char(c));
        assert!(c.is_whitespace());
    }
    for c in ['a', '0', ',', '\u{200B}', '\u{FEFF}'] {
        assert!(!is_space_char(c));
        assert_eq!(c.is_whitespace(), is_space_char(c));
    }
}

#[test]
fn trim_matches_str_trim() {
    for s in ["  a b  ", "\t\n", "", "x", " \u{A0}y\u{3000}"] {
        let v = chars_of(s);
        let sp = trim_span(&v, 0, v.len());
        assert_eq!(text(&v, sp), s.trim());
    }
}

#[test]
fn split_matches_str_split() {
    for s in ["a,b,,c", "", ",", "abc", ",x,"] {
        let v = chars_of(s);
        let spans = split_spans(&v, 0, v.len(), ',');
        let got: Vec<String> = spans.iter().map(|sp| text(&v, *sp)).collect();
        let want: Vec<String> = s.split(',').map(|p| p.to_string()).collect();
        assert_eq!(got, want);
    }
}

#[test]
fn first_nonblank_line_matches_lines() {
    for s in ["\n\n  x \r\ny", "   ", "", "a\r", "\r\n\t\nlast"] {
        let v = chars_of(s);
        let got = first_nonblank_line(&v).map(|sp| text(&v, sp));
        let want = s.lines().find(|l| !l.trim().is_empty()).map(|l| l.to_string());
        assert_eq!(got, want);
    }
}

#[test]
fn integers_parse_like_std() {
    for s in ["0", "255", "256", "+7", "-1", "", "+", "1 2", "00012", "abc"] {
        let v = chars_of(s);
        let got = parse_unsigned_or_zero(&v, 0, v.len(), 255);
        assert_eq!(got, s.parse::<u8>().unwrap_or(0) as u64);
        let got32 = parse_unsigned_or_zero(&v, 0, v.len(), u32::MAX as u64);
        assert_eq!(got32, s.parse::<u32>().unwrap_or(0) as u64);
    }
    for s in ["-2147483648", "-2147483649", "2147483647", "2147483648", "-0", "--1", "-+1", "+-1", "-"] {
        let v = chars_of(s);
        let got = parse_signed_or_zero(&v, 0, v.len(), 2147483648, 2147483647);
        assert_eq!(got, s.parse::<i32>().unwrap_or(0) as i64);
    }
}

#[test]
fn digit_runs() {
    let v = chars_of("12a34");
    assert_eq!(parse_digits(&v, 0, 2, 99), Some(12));
    assert_eq!(parse_digits(&v, 0, 2, 11), None);
    assert_eq!(parse_digits(&v, 0, 3, 999), None);
    assert_eq!(parse_digits(&v, 2, 2, 9), None);
    assert!(all_digits_span(&v, 3, 5));
    assert!(!all_digits_span(&v, 1, 4));
    assert!(all_digits_span(&v, 2, 2));
}

#[test]
fn floats_in_thousandths() {
    let max = i64::MAX;
    let cases = [
        ("106.20", 106_200),
        ("0.001", 1),
        ("0.0009", 0),
        ("-2.5", -2_500),
        ("+3", 3_000),
        (".75", 750),
        ("4.", 4_000),
        (".", 0),
        ("", 0),
        ("1.2.3", 0),
        ("[N/A]", 0),
        ("1e2", 100_000),
        ("1E2", 100_000),
        ("2.5e-1", 250),
        ("25e-5", 0),
        ("-1.5E+3", -1_500_000),
        ("1e", 0),
        ("e5", 0),
        (".e5", 0),
        ("1e+", 0),
        ("1e2.5", 0),
        ("1e1e1", 0),
        ("0e999999999999999999999999999999", 0),
        ("1e-999999999999999999999999999999", 0),
        ("1e999999999999999999999999999999", max),
        ("-1e40", -max),
        ("inf", max),
        ("-Infinity", -max),
        ("+INF", max),
        ("infin", 0),
        ("NaN", 0),
        ("-nan", 0),
        ("9223372036854775.807", 9_223_372_036_854_775_807),
        ("9223372036854775.808", max),
        ("99999999999999999999", max),
        ("0.000000000000000000000000000001e30", 1_000),
    ];
    for (s, want) in cases {
        let v = chars_of(s);
        assert_eq!(parse_float_thousandths_or_zero(&v, 0, v.len()), want, "{s}");
    }
}
