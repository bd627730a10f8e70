use smart_horizoker::text::{
    chars_of, contains, count_lines, decimal_text, is_whitespace, parse_port, segment_first,
    segment_second, spells_word, split_once, text_between, trim, trim_leading,
};

#[test]
fn characters_come_out_in_order() {
    assert_eq!(chars_of("aж🐳"), vec!['a', 'ж', '🐳']);
    assert_eq!(text_between(&chars_of("container"), 3, 6), "tai");
}

#[test]
fn splits_at_the_first_separator_only() {
    assert_eq!(split_once("a b c", ' '), Some(("a".to_string(), "b c".to_string())));
    assert_eq!(split_once(" x", ' '), Some(("".to_string(), "x".to_string())));
    assert_eq!(split_once("x ", ' '), Some(("x".to_string(), "".to_string())));
    assert_eq!(split_once("abc", ' '), None);
    assert_eq!(split_once("", ' '), None);
}

#[test]
fn segments_of_a_published_port() {
    assert_eq!(segment_first("80/tcp", '/'), "80");
    assert_eq!(segment_first("80", '/'), "80");
    assert_eq!(segment_second("80/udp/x", '/'), Some("udp".to_string()));
    assert_eq!(segment_second("80/", '/'), Some("".to_string()));
    assert_eq!(segment_second("80", '/'), None);
}

#[test]
fn leading_slashes_go() {
    for s in ["/web", "//web/x/", "web", "", "///"] {
        assert_eq!(trim_leading(s, '/'), s.trim_start_matches('/'));
    }
}

#[test]
fn whitespace_is_the_unicode_property() {
    for n in 0..=0x10ffffu32 {
        if let Some(c) = char::from_u32(n) {
            assert_eq!(is_whitespace(c), c.is_whitespace());
        }
    }
}

#[test]
fn trimming_agrees_with_the_standard_library() {
    for s in ["", " ", "a", " a b\t\r\n", "\u{3000}ж\u{2003}", "\u{200b}x\u{200b}", "\n\n"] {
        assert_eq!(trim(s), s.trim());
        assert_eq!(trim(trim(s).as_str()), trim(s));
    }
}

#[test]
fn patterns_are_found_anywhere() {
    assert!(contains("Up 3 hours", "Up"));
    assert!(contains("BackUp", "Up"));
    assert!(!contains("up", "Up"));
    assert!(!contains("U", "Up"));
    assert!(!contains("", "Up"));
    assert!(contains("", ""));
    assert!(contains("UUp", "Up"));
}

#[test]
fn lines_are_counted_as_the_standard_library_does() {
    for s in ["", "\n", "a", "a\n", "a\nb", "a\r\nb\r\n", "\n\n\n", "a\n\nb"] {
        assert_eq!(count_lines(s), s.lines().count());
    }
}

#[test]
fn words_are_spelled_in_any_case() {
    for s in ["read", "Read", "READ", "rEAD"] {
        assert!(spells_word(s, "read"));
    }
    for s in ["", "rea", "reads", "write", "r\u{0435}ad"] {
        assert!(!spells_word(s, "read"));
    }
}

#[test]
fn no_other_character_lowers_into_the_words() {
    for word in ["read", "write"] {
        let letters = chars_of(word);
        for n in 0..=0x10ffffu32 {
            if let Some(c) = char::from_u32(n) {
                for k in 0..letters.len() {
                    let lowers = c.to_string().to_lowercase() == letters[k].to_string();
                    let same = c.to_ascii_lowercase() == letters[k];
                    assert_eq!(lowers, same);
                }
            }
        }
    }
}

#[test]
fn decimals_are_written_without_padding() {
    assert_eq!(decimal_text(0), "0");
    assert_eq!(decimal_text(10), "10");
    assert_eq!(decimal_text(8080), "8080");
    assert_eq!(decimal_text(u64::MAX), "18446744073709551615");
}

#[test]
fn ports_are_read_as_the_standard_library_does() {
    for s in [
        "80", "0", "65535", "65536", "99999999999999999999", "+80", "+", "-1", "-0", "", " 80", "80 ",
        "8a", "00080", "++1", "٣",
    ] {
        assert_eq!(parse_port(s), s.parse::<u16>().ok());
    }
}

#[test]
fn every_port_reads_back() {
    for port in 0..=u16::MAX {
        assert_eq!(parse_port(decimal_text(port as u64).as_str()), Some(port));
    }
}
