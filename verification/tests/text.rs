use pubsub_broker::number::parse_number;
use pubsub_broker::text::{chars_of, is_whitespace, split_words};

#[test]
fn whitespace_is_what_the_standard_library_calls_whitespace() {
    let mut code: u32 = 0;
    while code <= 0x10ffff {
        if let Some(c) = char::from_u32(code) {
            assert_eq!(is_whitespace(c), c.is_whitespace(), "U+{:04X}", code);
        }
        code += 1;
    }
}

#[test]
fn chars_of_yields_each_character_in_order() {
    assert_eq!(chars_of(""), Vec::<char>::new());
    assert_eq!(chars_of("a b"), vec!['a', ' ', 'b']);
    assert_eq!(chars_of("é温"), vec!['é', '温']);
}

#[test]
fn split_words_yields_what_split_whitespace_yields() {
    let samples = [
        "",
        " ",
        "temp",
        "temp pressure",
        "  temp   pressure\thumidity\n",
        "a\u{00a0}b\u{3000}c",
        "\u{2003}x y\u{2003}",
        "温度 圧力",
    ];
    for sample in samples {
        let expected: Vec<String> = sample.split_whitespace().map(|w| w.to_string()).collect();
        assert_eq!(split_words(sample), expected, "{:?}", sample);
    }
}

#[test]
fn split_words_of_a_list_of_topics() {
    assert_eq!(split_words("telemetry alerts"), vec!["telemetry".to_string(), "alerts".to_string()]);
}

#[test]
fn parse_number_reads_decimal_digits() {
    assert_eq!(parse_number("0", u64::MAX), Some(0));
    assert_eq!(parse_number("1024", u64::MAX), Some(1024));
    assert_eq!(parse_number("+50", u64::MAX), Some(50));
    assert_eq!(parse_number("007", u64::MAX), Some(7));
    assert_eq!(parse_number("18446744073709551615", u64::MAX), Some(u64::MAX));
}

#[test]
fn parse_number_refuses_what_is_no_number() {
    for text in ["", "+", "-", "-5", "+-5", "++5", " 5", "5 ", "5a", "a5", "0x10", "1_000", "٣"] {
        assert_eq!(parse_number(text, u64::MAX), None, "{:?}", text);
    }
}

#[test]
fn parse_number_refuses_what_is_too_large() {
    assert_eq!(parse_number("18446744073709551616", u64::MAX), None);
    assert_eq!(parse_number("99999999999999999999999999999999999999999", u64::MAX), None);
    assert_eq!(parse_number("4294967295", u32::MAX as u64), Some(4294967295));
    assert_eq!(parse_number("4294967296", u32::MAX as u64), None);
    assert_eq!(parse_number("11", 10), None);
    assert_eq!(parse_number("10", 10), Some(10));
    assert_eq!(parse_number("0", 0), Some(0));
    assert_eq!(parse_number("1", 0), None);
}

#[test]
fn parse_number_agrees_with_the_standard_library() {
    let samples = [
        "", "+", "-", "0", "+0", "-0", "1", "42", "+42", "0042", "4294967295", "4294967296",
        "18446744073709551615", "18446744073709551616", "1e3", "12 ", " 12", "1.5",
    ];
    for sample in samples {
        assert_eq!(parse_number(sample, u64::MAX), sample.parse::<u64>().ok(), "{:?}", sample);
        assert_eq!(
            parse_number(sample, u32::MAX as u64),
            sample.parse::<u32>().ok().map(|n| n as u64),
            "{:?}",
            sample
        );
    }
}
