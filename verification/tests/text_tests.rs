use chess_position::text::{char_is_whitespace, chars_of, next_field, parse_u8, u8_to_string};

#[test]
fn white_space_is_the_unicode_property() {
    for n in 0..=0x10FFFFu32 {
        if let Some(c) = char::from_u32(n) {
            assert_eq!(char_is_whitespace(c), c.is_whitespace(), "U+{n:04X}");
        }
    }
}

#[test]
fn chars_of_keeps_every_character() {
    assert_eq!(chars_of(""), Vec::<char>::new());
    assert_eq!(chars_of("a\u{e9}\u{1F600} z"), vec!['a', '\u{e9}', '\u{1F600}', ' ', 'z']);
}

#[test]
fn next_field_finds_the_runs() {
    let chars = chars_of("  ab\tc ");
    assert_eq!(next_field(&chars, 0), (2, 4));
    assert_eq!(next_field(&chars, 2), (2, 4));
    assert_eq!(next_field(&chars, 3), (3, 4));
    assert_eq!(next_field(&chars, 4), (5, 6));
    assert_eq!(next_field(&chars, 6), (7, 7));
    assert_eq!(next_field(&chars, 7), (7, 7));
    let none = chars_of("");
    assert_eq!(next_field(&none, 0), (0, 0));
}

#[test]
fn fields_agree_with_split_whitespace() {
    for text in [
        "",
        " ",
        "a",
        " a",
        "a ",
        "a b",
        "  rnbq/8 w\tKQkq\n-  0\u{2009}1  ",
        "\u{3000}x\u{a0}\u{a0}y\u{85}z",
        "one\u{200b}word",
    ] {
        let chars = chars_of(text);
        let mut found: Vec<String> = Vec::new();
        let mut from = 0;
        loop {
            let (start, end) = next_field(&chars, from);
            if start >= chars.len() {
                break;
            }
            found.push(chars[start..end].iter().collect());
            from = end;
        }
        let expected: Vec<String> = text.split_whitespace().map(String::from).collect();
        assert_eq!(found, expected, "{text:?}");
    }
}

#[test]
fn parse_u8_reads_every_byte() {
    for n in 0..=255u8 {
        assert_eq!(parse_u8(&format!("{n}")), Some(n));
        assert_eq!(parse_u8(&format!("+{n}")), Some(n));
        assert_eq!(parse_u8(&format!("000{n}")), Some(n));
    }
}

#[test]
fn parse_u8_agrees_with_the_standard_parser() {
    for text in [
        "", "+", "-", "-0", "-1", "+0", "++1", "+-1", "0", "00", "255", "256", "0256", "300", "999",
        "1000", "99999999999999999999999999", "1a", "a1", " 1", "1 ", "1+", "0x10", "\u{661}",
        "1\u{663}", "12\u{e9}", "+255", "+256", "2_5",
    ] {
        assert_eq!(parse_u8(text), text.parse::<u8>().ok(), "{text:?}");
    }
    for n in 0..2000u32 {
        let text = format!("{n}");
        assert_eq!(parse_u8(&text), text.parse::<u8>().ok(), "{text:?}");
    }
}

#[test]
fn u8_to_string_writes_decimal() {
    for n in 0..=255u8 {
        assert_eq!(u8_to_string(n), format!("{n}"));
    }
    assert_eq!(u8_to_string(0), "0");
    assert_eq!(u8_to_string(9), "9");
    assert_eq!(u8_to_string(10), "10");
    assert_eq!(u8_to_string(100), "100");
    assert_eq!(u8_to_string(255), "255");
}
