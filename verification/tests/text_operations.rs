//! Text operations, held against those of std.
use e_waste::text::{
    chars_of, decimal_text, enclosed, eq_ignore_ascii_case, hex_byte_text, is_ascii_letter,
    is_white_space, join, pad, parse_u32, prefixed, replace_char, same_text, starts_with, to_ascii_lower,
    trim, trim_end_matches, with_number, without_prefix,
};

const SAMPLES: [&str; 14] = [
    "",
    " ",
    "a",
    "  a b  ",
    "\t\r\nC:\\\u{a0}",
    "\u{2003}x\u{3000}",
    "C:\\\\",
    "\\\\\\",
    "c:/mnt/data/",
    "Grüße",
    "grÜSSE",
    "日本語",
    "\u{1680}\u{2028}",
    "ABC123",
];

#[test]
fn white_space_is_that_of_std() {
    for c in '\0'..=char::MAX {
        assert_eq!(is_white_space(c), c.is_whitespace(), "{:?}", c);
    }
}

#[test]
fn ascii_characters_are_those_of_std() {
    for c in '\0'..=char::MAX {
        assert_eq!(to_ascii_lower(c), c.to_ascii_lowercase(), "{:?}", c);
        assert_eq!(is_ascii_letter(c), c.is_ascii_alphabetic(), "{:?}", c);
    }
}

#[test]
fn one_text_operations_are_those_of_std() {
    for s in SAMPLES {
        assert_eq!(trim(s), s.trim());
        assert_eq!(trim_end_matches(s, '\\'), s.trim_end_matches('\\'));
        assert_eq!(replace_char(s, '/', '\\'), s.replace('/', "\\"));
        assert_eq!(chars_of(s), s.chars().collect::<Vec<char>>());
    }
}

#[test]
fn two_text_operations_are_those_of_std() {
    for a in SAMPLES {
        for b in SAMPLES {
            assert_eq!(same_text(a, b), a == b);
            assert_eq!(eq_ignore_ascii_case(a, b), a.eq_ignore_ascii_case(b));
            assert_eq!(starts_with(a, b), a.starts_with(b));
            if let Some(rest) = a.strip_prefix(b) {
                assert_eq!(without_prefix(a, b), rest);
            }
            assert_eq!(prefixed(a, b), format!("{}{}", a, b));
            assert_eq!(enclosed(a, b, a), format!("{}{}{}", a, b, a));
        }
    }
}

#[test]
fn joining_is_that_of_std() {
    for n in 0..4 {
        let parts: Vec<String> = SAMPLES[3..3 + n].iter().map(|s| s.to_string()).collect();
        assert_eq!(join(&parts, "; "), parts.join("; "));
    }
}

#[test]
fn numbers_are_written_as_by_std() {
    for n in [0, 7, 9, 10, 99, 100, 1048576, u32::MAX as u64, u64::MAX] {
        assert_eq!(decimal_text(n), n.to_string());
        assert_eq!(with_number("disk ", n, ": x"), format!("disk {}: x", n));
    }
    for b in 0..=u8::MAX {
        assert_eq!(hex_byte_text(b), format!("{:#04x}", b));
    }
}

#[test]
fn numbers_are_read_as_by_std() {
    let cases = [
        "", "+", "-", "0", "+0", "-0", "00", "1", "+1", "++1", "1 ", " 1", "abc", "1a", "4294967295",
        "4294967296", "99999999999999999999", "0000000000000000000001", "１", "1_000",
    ];
    for s in cases {
        assert_eq!(parse_u32(s), s.parse::<u32>().ok(), "{:?}", s);
    }
}

#[test]
fn a_number_written_in_decimal_is_read_back() {
    for n in [0, 1, 10, 4096, u32::MAX] {
        assert_eq!(parse_u32(&decimal_text(n as u64)), Some(n));
    }
}

#[test]
fn columns_are_padded_as_by_std() {
    for s in SAMPLES {
        assert_eq!(pad(s, 9), format!("{:<9}", s));
        assert_eq!(pad(s, 0), s);
    }
}
