use lego_radio::text::{
    contains, join, parse_i32, parse_u64, parse_u8, same_text, split_before_last,
    split_at_first, split_lines, split_on, split_words, starts_with, strip_leading, to_decimal, trim,
};

const TEXTS: [&str; 12] = [
    "",
    " ",
    "a",
    "..",
    "1.2.3",
    "a b\u{3000}c",
    "\t x \r\n y\r",
    "one\ntwo\r\n\nthree",
    "one\r",
    "\n",
    "vvv1",
    "h\u{e9}llo w\u{f6}rld/",
];

#[test]
fn splitting_agrees_with_the_standard_library() {
    for text in TEXTS {
        assert_eq!(split_on(text, '.'), text.split('.').collect::<Vec<_>>());
        assert_eq!(split_words(text), text.split_whitespace().collect::<Vec<_>>());
        assert_eq!(split_lines(text), text.lines().collect::<Vec<_>>());
    }
}

#[test]
fn trimming_agrees_with_the_standard_library() {
    for text in TEXTS {
        assert_eq!(trim(text), text.trim());
        assert_eq!(strip_leading(text, 'v'), text.trim_start_matches('v'));
        assert_eq!(
            split_before_last(text, '/'),
            text.rsplit_once('/').map(|(head, _)| head)
        );
    }
    assert_eq!(split_before_last("a/b/c", '/'), Some("a/b"));
    for text in TEXTS {
        let expected = match text.split_once('.') {
            Some((head, rest)) => (head, Some(rest)),
            None => (text, None),
        };
        assert_eq!(split_at_first(text, '.'), expected);
    }
}

#[test]
fn searching_agrees_with_the_standard_library() {
    for text in TEXTS {
        for part in TEXTS {
            assert_eq!(contains(text, part), text.contains(part));
            assert_eq!(starts_with(text, part), text.starts_with(part));
            assert_eq!(same_text(text, part), text == part);
            assert_eq!(join(text, part), format!("{}{}", text, part));
        }
    }
}

#[test]
fn numbers_agree_with_the_standard_library() {
    let texts = [
        "", "+", "-", "0", "-0", "+0", "007", "1e3", " 1", "1 ", "255", "256", "-1", "--1", "+-1",
        "4294967295", "4294967296", "2147483647", "2147483648", "-2147483648", "-2147483649",
        "18446744073709551615", "18446744073709551616", "99999999999999999999999", "\u{663}",
    ];
    for text in texts {
        assert_eq!(parse_u8(text), text.parse::<u8>().ok(), "{text:?}");
        assert_eq!(parse_u64(text), text.parse::<u64>().ok(), "{text:?}");
        assert_eq!(parse_i32(text), text.parse::<i32>().ok(), "{text:?}");
    }
}

#[test]
fn decimal_digits_read_back() {
    for n in [0, 7, 10, 100, 123456789, u64::MAX] {
        assert_eq!(to_decimal(n), n.to_string());
        assert_eq!(parse_u64(&to_decimal(n)), Some(n));
    }
}
