use lib::text::nonempty;
use lib::text_parse::{parse_i32, parse_usize, same_text};

#[test]
fn signed_numerals_follow_std() {
    for text in ["0", "7", "+7", "-7", "-2147483648", "2147483647", "007", "-0"] {
        assert_eq!(parse_i32(text), text.parse::<i32>().ok(), "{text:?}");
    }
    for text in ["", "+", "-", "2147483648", "-2147483649", "1_000", " 1", "1 ", "٣", "+-1"] {
        assert_eq!(parse_i32(text), None, "{text:?}");
        assert!(text.parse::<i32>().is_err());
    }
}

#[test]
fn unsigned_numerals_follow_std() {
    for text in ["0", "42", "+42", "18446744073709551615"] {
        assert_eq!(parse_usize(text), text.parse::<usize>().ok(), "{text:?}");
    }
    for text in ["-1", "-0", "", "18446744073709551616", "4x"] {
        assert_eq!(parse_usize(text), None, "{text:?}");
    }
}

#[test]
fn texts_are_compared_by_their_characters() {
    assert!(same_text("--folder-share", "--folder-share"));
    assert!(!same_text("--folder-share", "--folder-shar"));
    assert!(!same_text("é", "e"));
}

#[test]
fn nonempty_trims_and_drops_blank_values() {
    assert_eq!(nonempty("  tomorrow 9:00 \n"), Some("tomorrow 9:00".to_owned()));
    assert_eq!(nonempty(" \t "), None);
    assert_eq!(nonempty(""), None);
}
