use simple_lector_dni::reader::{select_reader, ReaderInfo, ReaderPresence};
use simple_lector_dni::text::{decimal_text, text_contains, trim_text};

#[test]
fn decimal_rendering_matches_to_string() {
    for n in [0u64, 7, 10, 99, 100, 4096, u64::MAX] {
        assert_eq!(decimal_text(n), n.to_string());
    }
}

#[test]
fn trimming_removes_unicode_whitespace_at_both_ends() {
    assert_eq!(trim_text("  a b \t"), "a b");
    assert_eq!(trim_text("\u{3000}x\u{a0}"), "x");
    assert_eq!(trim_text("   "), "");
    assert_eq!(trim_text(""), "");
    assert_eq!(trim_text("x"), "x");
}

#[test]
fn substring_search_finds_every_position() {
    assert!(text_contains("Generic EMV Smartcard Reader", "Reader"));
    assert!(text_contains("abc", ""));
    assert!(text_contains("abc", "abc"));
    assert!(!text_contains("abc", "abcd"));
    assert!(!text_contains("abc", "ac"));
    assert!(text_contains("aab", "ab"));
}

#[test]
fn reader_patterns_ignore_case_beyond_ascii() {
    let readers = vec![ReaderInfo {
        index: 0,
        name: "Lector ÑANDÚ".to_owned(),
        presence: ReaderPresence::Empty,
        event_count: 0,
    }];

    assert_eq!(select_reader(&readers, Some("ñandú")).unwrap().index, 0);
    assert!(select_reader(&readers, Some("nandu")).is_err());
}
