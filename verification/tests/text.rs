use agentic_api::text::{
    begins_with_case_of, chars_of, decimal_of, has_suffix, is_case_of, to_ascii_lower, trim_end_of, trim_white_of,
};

#[test]
fn every_character_trims_like_white_space_or_stays() {
    for n in 0..=0x10ffffu32 {
        if let Some(c) = char::from_u32(n) {
            let listed = matches!(
                n,
                0x9..=0xd | 0x20 | 0x85 | 0xa0 | 0x1680 | 0x2000..=0x200a | 0x2028 | 0x2029 | 0x202f | 0x205f | 0x3000
            );
            let s = c.to_string();
            assert_eq!(trim_white_of(&s).is_empty(), listed, "{n:x}");
        }
    }
}

#[test]
fn white_space_is_trimmed_on_both_sides() {
    assert_eq!(trim_white_of(" \t key with space \n\u{2003}"), "key with space");
    assert_eq!(trim_white_of(""), "");
    assert_eq!(trim_white_of(" \u{3000} "), "");
}

#[test]
fn only_the_end_is_trimmed_of_a_character() {
    assert_eq!(trim_end_of("//a//b//", '/'), "//a//b");
    assert_eq!(trim_end_of("", '/'), "");
}

#[test]
fn numbers_are_written_without_leading_zeros() {
    for n in 0..=u16::MAX {
        assert_eq!(decimal_of(n), n.to_string());
    }
}

#[test]
fn ascii_case_is_ignored() {
    assert!(is_case_of("Keep-Alive", "keep-alive"));
    assert!(!is_case_of("keep-aliv", "keep-alive"));
    assert!(!is_case_of("keep-alivf", "keep-alive"));
    assert!(begins_with_case_of("TEXT/Event-Stream; q", "text/event-stream"));
    assert!(!begins_with_case_of("text/event", "text/event-stream"));
    assert!(!begins_with_case_of("text/plain-stream-it", "text/event-stream"));
    for n in 0..=255u8 {
        let c = n as char;
        assert_eq!(to_ascii_lower(c), c.to_ascii_lowercase());
    }
    assert_eq!(to_ascii_lower('\u{c4}'), '\u{c4}');
}

#[test]
fn suffixes_are_found() {
    assert!(has_suffix("a/v1", "/v1"));
    assert!(!has_suffix("a/v2", "/v1"));
    assert!(!has_suffix("v1", "/v1"));
    assert!(has_suffix("", ""));
    assert_eq!(chars_of("a\u{e4}"), vec!['a', '\u{e4}']);
}
