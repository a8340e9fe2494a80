use ssht::bytes::{common_prefix_len, has_new_match, pop_utf8_char, starts_with, utf8_char_count};
use ssht::text::{
    char_is_space, decimal_text, has_char, parse_number, position, same_text, split_at_char,
    split_lines, split_words, trim,
};

const SAMPLES: [&str; 12] = [
    "",
    " ",
    "a",
    " a\tb  c\u{3000}",
    "line\r\nline two\n\nlast",
    "\n",
    "\r\n",
    "a\rb\n\r",
    "x=y=z",
    "\u{a0}é\u{2003}日本\u{85}",
    ",,a,",
    "trailing\n",
];

#[test]
fn white_space_is_what_unicode_says() {
    for c in '\0'..=char::MAX {
        assert_eq!(char_is_space(c), c.is_whitespace(), "{c:?}");
    }
}

#[test]
fn texts_are_taken_apart() {
    for s in SAMPLES {
        assert_eq!(trim(s), s.trim());
        assert_eq!(split_words(s), s.split_whitespace().collect::<Vec<_>>());
        assert_eq!(split_lines(s), s.lines().collect::<Vec<_>>());
        for c in [',', '=', '\n', 'é'] {
            assert_eq!(split_at_char(s, c), s.split(c).collect::<Vec<_>>());
            assert_eq!(has_char(s, c), s.contains(c));
            assert_eq!(position(s, c), s.chars().position(|x| x == c));
        }
        for t in SAMPLES {
            assert_eq!(same_text(s, t), s == t);
        }
    }
}

#[test]
fn numbers_are_read_and_written() {
    for n in [0u64, 7, 10, 65535, 65536, u64::MAX] {
        assert_eq!(decimal_text(n), n.to_string());
    }
    for s in ["", "+", "0", "00022", "+22", "-1", "65535", "65536", "1e3", " 1", "99999999999999999999"] {
        assert_eq!(parse_number(s, 65535), s.parse::<u16>().ok().map(u32::from), "{s:?}");
        assert_eq!(parse_number(s, u32::MAX), s.parse::<u32>().ok(), "{s:?}");
    }
}

#[test]
fn bytes_are_searched() {
    assert!(has_new_match(b"password", 3, b"assword"));
    assert!(!has_new_match(b"password", 8, b"assword"));
    assert!(has_new_match(b"aaaa", 3, b"aa"));
    assert!(!has_new_match(b"a", 0, b"aa"));
    assert_eq!(common_prefix_len(b"abcd", b"abxd"), 2);
    assert_eq!(common_prefix_len(b"", b"a"), 0);
    assert!(starts_with(b"abc", b"ab") && !starts_with(b"ab", b"abc"));
}

#[test]
fn characters_are_counted_and_taken_off() {
    let mut line = "aé🎉".as_bytes().to_vec();
    assert_eq!(utf8_char_count(&line), 3);
    assert!(pop_utf8_char(&mut line));
    assert_eq!(line, "aé".as_bytes());
    assert!(pop_utf8_char(&mut line));
    assert!(pop_utf8_char(&mut line));
    assert!(line.is_empty());
    assert!(!pop_utf8_char(&mut line));
    let mut stray = vec![0x80, 0x80];
    assert!(pop_utf8_char(&mut stray));
    assert!(stray.is_empty());
}
