use fluxa::edit;
use fluxa::text;

#[test]
fn white_space_is_that_of_unicode() {
    for u in 0..=0x10ffffu32 {
        if let Some(c) = char::from_u32(u) {
            assert_eq!(text::is_white(c), c.is_whitespace(), "{:x}", u);
        }
    }
}

#[test]
fn characters_are_as_wide_as_their_encoding() {
    for u in 0..=0x10ffffu32 {
        if let Some(c) = char::from_u32(u) {
            assert_eq!(edit::char_width(c), c.len_utf8(), "{:x}", u);
        }
    }
}

fn samples() -> Vec<&'static str> {
    vec![
        "", " ", "a", " a", "a ", "  a b  ", "\t\n", "upload j p", "é", "\u{3000}é ü\u{a0}", "a\u{2028}b",
        "one two\tthree\r\nfour", "\u{200b}x", "-", "   leading", "trailing   ",
    ]
}

#[test]
fn trimming_and_splitting_agree_with_std() {
    for s in samples() {
        assert_eq!(text::trim(s), s.trim());
        assert_eq!(text::is_blank(s), s.trim().is_empty());
        let words: Vec<String> = s.split_whitespace().map(|w| w.to_string()).collect();
        assert_eq!(text::split_whitespace(s), words);
        for p in samples() {
            assert_eq!(text::strip_prefix(s, p), s.strip_prefix(p).map(|r| r.to_string()));
        }
        assert_eq!(text::chars_of(s), s.chars().collect::<Vec<char>>());
    }
}

#[test]
fn trimming_twice_is_trimming_once() {
    assert_eq!(text::trim("  ls -l  "), "ls -l");
    assert_eq!(text::trim(&text::trim("  ls -l  ")), "ls -l");
}

#[test]
fn numerals_are_decimal() {
    for n in [0u64, 1, 9, 10, 11, 99, 100, 65536, 1000000, u64::MAX] {
        assert_eq!(text::decimal_text(n), n.to_string());
    }
    for i in [0i32, 7, -1, -10, 255, i32::MAX, i32::MIN] {
        assert_eq!(text::signed_decimal_text(i), i.to_string());
    }
}

#[test]
fn editing_agrees_with_std() {
    for s in samples() {
        assert_eq!(edit::byte_length(s), s.len());
        for at in 0..=s.len() + 1 {
            assert_eq!(edit::at_boundary(s, at), s.is_char_boundary(at));
            if s.is_char_boundary(at) {
                for c in ['x', 'é', '語', '😀'] {
                    let mut expected = s.to_string();
                    expected.insert(at, c);
                    assert_eq!(edit::insert_at(&s.to_string(), at, c), expected);
                }
                if at < s.len() {
                    let mut expected = s.to_string();
                    expected.remove(at);
                    assert_eq!(edit::remove_at(&s.to_string(), at), expected);
                }
            }
        }
    }
}
