//! Text and time.

use revlocal_daemon::clock::{Timestamp, NANOS_PER_DAY};
use revlocal_daemon::text::{
    before_or_same, blank, bytes_in, contains, count, ends_with, join, join_path, num, signed,
    sort_texts, split_lines, starts_with, trim,
};

fn owned(words: &[&str]) -> Vec<String> {
    words.iter().map(|w| (*w).to_owned()).collect()
}

#[test]
fn text_is_searched_and_cut() {
    assert!(contains("a—b", "—") && contains("abc", "") && !contains("abc", "cb"));
    assert!(starts_with("abc", "ab") && !starts_with("a", "ab"));
    assert!(ends_with("abc", "bc") && !ends_with("c", "bc"));
    assert_eq!(trim(" \t a b\u{a0}\n"), "a b");
    assert!(blank(" \u{2003}\n") && !blank(" x"));
    assert_eq!(split_lines("a\r\nb\n\nc"), ["a\r\n", "b\n", "\n", "c"], "each with its end");
    assert_eq!(split_lines("a\n"), ["a\n"]);
    assert!(split_lines("").is_empty());
}

#[test]
fn text_is_measured_in_bytes() {
    for text in ["", "abc", "é", "—", "🦀", "aé—🦀"] {
        assert_eq!(bytes_in(text), text.len(), "{text}");
    }
}

#[test]
fn text_is_put_in_order() {
    assert_eq!(sort_texts(owned(&["b", "", "ab", "a", "é", "z"])), ["", "a", "ab", "b", "z", "é"]);
    assert!(before_or_same("a", "a") && before_or_same("a", "aa") && !before_or_same("b", "aa"));
    assert_eq!(join(&owned(&["a", "b"]), ", "), "a, b");
    assert_eq!(join(&owned(&[]), ", "), "");
}

#[test]
fn numbers_are_written_out() {
    assert_eq!((num(0), num(u64::MAX), count(42)), ("0".to_owned(), u64::MAX.to_string(), "42".to_owned()));
    assert_eq!((signed(i64::MIN), signed(-7), signed(0)), (i64::MIN.to_string(), "-7".to_owned(), "0".to_owned()));
}

#[test]
fn a_path_is_joined_as_the_system_does() {
    for (base, name) in [("/a", "b"), ("/a/", "b"), ("", "b"), ("/", "b"), ("a", "b/c")] {
        let expected = std::path::Path::new(base).join(name);
        assert_eq!(join_path(base, name), expected.to_str().expect("text"), "{base} {name}");
    }
}

#[test]
fn a_moment_is_written_and_read_back() {
    for (secs, nanos) in [(0, 0), (1_788_000_000, 123_456_789), (-1, 999_999_999), (253_402_300_799, 0)] {
        let moment = Timestamp::at(secs, nanos);
        assert_eq!(moment.parts(), (secs, nanos));
        assert_eq!(Timestamp::from_rfc3339(&moment.to_rfc3339()), Some(moment));
    }
    assert_eq!(Timestamp::at(1_788_000_000, 500_000_000).to_rfc3339(), "2026-08-29T10:40:00.500+00:00");
    assert_eq!(Timestamp::from_rfc3339("2026-08-29T12:40:00+02:00"), Some(Timestamp::at(1_788_000_000, 0)));
    assert_eq!(Timestamp::from_rfc3339("yesterday"), None);
    assert_eq!(Timestamp::at(0, 0).plus_hours(24).since(Timestamp::at(0, 0)), NANOS_PER_DAY);
}
