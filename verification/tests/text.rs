use epigen::text::{fold_code, parse_number, run_of_flags_end, Source};

#[test]
fn run_of_flags_ends_at_first_false() {
    let flags = vec![true, true, false, true];
    assert_eq!(run_of_flags_end(&flags, 0), 2);
    assert_eq!(run_of_flags_end(&flags, 1), 2);
    assert_eq!(run_of_flags_end(&flags, 2), 2);
    assert_eq!(run_of_flags_end(&flags, 3), 4);
    assert_eq!(run_of_flags_end(&flags, 4), 4);
    assert_eq!(run_of_flags_end(&Vec::new(), 0), 0);
}

#[test]
fn source_gives_characters_and_parts() {
    let src = Source::new("h\u{e9}llo  w\u{f6}rld");
    assert_eq!(src.len(), 12);
    assert_eq!(src.char_at(1), '\u{e9}');
    assert_eq!(src.char_at(11), 'd');
    assert_eq!(src.slice(0, 5), "h\u{e9}llo");
    assert_eq!(src.slice(5, 5), "");
    assert_eq!(src.rest(7), "w\u{f6}rld");
    assert_eq!(src.rest(12), "");
    assert!(src.is_char(0, 'h'));
    assert!(!src.is_char(0, 'e'));
    assert!(!src.is_char(12, 'd'));
}

#[test]
fn source_scans_runs() {
    let src = Source::new("ab1  :  42x_");
    assert_eq!(src.identifier_end(0), 3);
    assert_eq!(src.identifier_end(3), 3);
    assert_eq!(src.blanks_end(3), 5);
    assert_eq!(src.blanks_end(5), 5);
    assert_eq!(src.blanks_end(6), 8);
    assert_eq!(src.digits_end(8), 10);
    assert_eq!(src.identifier_end(8), 11);
    assert_eq!(src.digits_end(10), 10);
    assert_eq!(src.identifier_end(12), 12);
    assert_eq!(src.blanks_end(12), 12);
    assert_eq!(src.digits_end(12), 12);
    let src = Source::new("\u{663}\u{e9}\u{4e2d}-");
    assert_eq!(src.identifier_end(0), 3);
    assert_eq!(src.digits_end(0), 0);
}

#[test]
fn source_finds_words() {
    let src = Source::new("val fun");
    assert_eq!(src.after_word(0, "val"), Some(3));
    assert_eq!(src.after_word(4, "fun"), Some(7));
    assert_eq!(src.after_word(4, "func"), None);
    assert_eq!(src.after_word(0, "fun"), None);
    assert_eq!(src.after_word(7, ""), Some(7));
    assert_eq!(src.after_word(7, "x"), None);
    assert!(Source::new("FlOaT").is_word_ignoring_case("float"));
    assert!(!Source::new("floa").is_word_ignoring_case("float"));
    assert!(!Source::new("fl0at").is_word_ignoring_case("float"));
}

#[test]
fn fold_code_folds_ascii_capitals_only() {
    assert_eq!(fold_code('A'), 'a' as u32);
    assert_eq!(fold_code('Z'), 'z' as u32);
    assert_eq!(fold_code('a'), 'a' as u32);
    assert_eq!(fold_code('@'), '@' as u32);
    assert_eq!(fold_code('['), '[' as u32);
    assert_eq!(fold_code('\u{c9}'), 0xc9);
}

#[test]
fn parse_number_reads_unsigned_decimals() {
    assert_eq!(parse_number("0"), Some(0));
    assert_eq!(parse_number("42"), Some(42));
    assert_eq!(parse_number("+42"), Some(42));
    assert_eq!(parse_number("0042"), Some(42));
    assert_eq!(parse_number(""), None);
    assert_eq!(parse_number("+"), None);
    assert_eq!(parse_number("++1"), None);
    assert_eq!(parse_number("-0"), None);
    assert_eq!(parse_number("4 2"), None);
    assert_eq!(parse_number("\u{663}"), None);
    assert_eq!(parse_number(&usize::MAX.to_string()), Some(usize::MAX));
    let above = format!("{}", usize::MAX as u128 + 1);
    assert_eq!(parse_number(&above), None);
}
