use monsoon::number::{format_two_digits, format_unsigned, parse_unsigned};
use monsoon::text::{chars_of, contains, has_prefix, same_text, split, string_of};

fn cv(s: &str) -> Vec<char> {
    s.chars().collect()
}

#[test]
fn chars_round_trip() {
    assert_eq!(chars_of("héllo"), cv("héllo"));
    assert_eq!(string_of(&cv("héllo")), "héllo");
    assert_eq!(string_of(&chars_of("")), "");
}

#[test]
fn contains_finds_runs() {
    assert!(contains(&cv("Frieren Season 2"), &cv("Season")));
    assert!(!contains(&cv("Frieren Season 2"), &cv("season")));
    assert!(contains(&cv("abc"), &cv("")));
    assert!(!contains(&cv("ab"), &cv("abc")));
    assert!(contains(&cv("aab"), &cv("ab")));
    assert!(has_prefix(&cv("bytes=10-"), &cv("bytes=")));
    assert!(!has_prefix(&cv("byte"), &cv("bytes=")));
    assert!(same_text(&cv("mkv"), &cv("mkv")));
    assert!(!same_text(&cv("mkv"), &cv("mk")));
}

#[test]
fn split_keeps_empty_pieces() {
    assert_eq!(split(&cv("a b  c"), ' '), vec![cv("a"), cv("b"), cv(""), cv("c")]);
    assert_eq!(split(&cv(""), ' '), vec![cv("")]);
    assert_eq!(split(&cv("-"), '-'), vec![cv(""), cv("")]);
    assert_eq!(split(&cv("1_2"), '_'), vec![cv("1"), cv("2")]);
}

#[test]
fn parse_unsigned_follows_the_standard_reader() {
    for text in ["0", "7", "007", "+5", "255", "256", "", "+", "-1", "1a", " 1", "18446744073709551615", "18446744073709551616", "99999999999999999999999"] {
        assert_eq!(parse_unsigned(&cv(text), u64::MAX), text.parse::<u64>().ok(), "{text}");
        assert_eq!(
            parse_unsigned(&cv(text), 255),
            text.parse::<u8>().ok().map(u64::from),
            "{text}"
        );
    }
}

#[test]
fn format_unsigned_writes_decimal() {
    assert_eq!(string_of(&format_unsigned(0)), "0");
    assert_eq!(string_of(&format_unsigned(4999)), "4999");
    assert_eq!(string_of(&format_unsigned(u64::MAX)), "18446744073709551615");
    assert_eq!(string_of(&format_two_digits(7)), "07");
    assert_eq!(string_of(&format_two_digits(12)), "12");
    assert_eq!(string_of(&format_two_digits(123)), "123");
}

#[test]
fn reading_what_was_written_gives_the_number_back() {
    for n in [0u64, 9, 10, 99, 100, 5000, u64::MAX] {
        assert_eq!(parse_unsigned(&format_unsigned(n), u64::MAX), Some(n));
    }
}
