use zjstatus_hints::ansi::{calculate_visible_length, truncate_ansi_string, AnsiParser, AnsiSegment};

#[test]
fn visible_length_of_plain_text() {
    assert_eq!(calculate_visible_length("hello"), 5);
    assert_eq!(calculate_visible_length(""), 0);
}

#[test]
fn visible_length_skips_escape_sequences() {
    assert_eq!(calculate_visible_length("\x1b[1mab\x1b[0mc"), 3);
    assert_eq!(calculate_visible_length("\x1b[38;2;1;2;3m←→"), 2);
}

#[test]
fn unterminated_escape_runs_to_the_end() {
    assert_eq!(calculate_visible_length("ab\x1b[1;2"), 2);
}

#[test]
fn parser_hands_out_segments_in_order() {
    let mut parser = AnsiParser::new("a\x1b[1mb");
    match parser.next_segment() {
        Some(AnsiSegment::VisibleChar(c)) => assert_eq!(c, 'a'),
        _ => panic!("expected a visible character"),
    }
    match parser.next_segment() {
        Some(AnsiSegment::EscapeSequence(s)) => assert_eq!(s, "\x1b[1m"),
        _ => panic!("expected an escape sequence"),
    }
    match parser.next_segment() {
        Some(AnsiSegment::VisibleChar(c)) => assert_eq!(c, 'b'),
        _ => panic!("expected a visible character"),
    }
    assert!(parser.next_segment().is_none());
    assert!(parser.next_segment().is_none());
}

#[test]
fn text_that_fits_is_unchanged() {
    assert_eq!(truncate_ansi_string("\x1b[1mabc\x1b[0m", "...", 3), "\x1b[1mabc\x1b[0m");
    assert_eq!(truncate_ansi_string("abc", "...", 10), "abc");
}

#[test]
fn no_room_gives_only_the_marker() {
    assert_eq!(truncate_ansi_string("abcdef", "...", 3), "...");
    assert_eq!(truncate_ansi_string("abcdef", "...", 2), "...");
}

#[test]
fn truncation_keeps_escape_sequences_before_the_cut() {
    let text = "\x1b[1mabc\x1b[0mdef";
    let cut = truncate_ansi_string(text, "...", 5);
    assert_eq!(cut, "\x1b[1mab...");
    assert_eq!(calculate_visible_length(&cut), 5);
}

#[test]
fn truncation_room_counts_marker_bytes() {
    // "…" is three bytes long, so only two characters of text remain.
    let cut = truncate_ansi_string("abcdefgh", "…", 5);
    assert_eq!(cut, "ab…");
    assert_eq!(calculate_visible_length(&cut), 5 - 3 + 1);
}

#[test]
fn truncated_text_shows_exactly_max_len_characters() {
    let text = " \x1b[1;38;2;1;2;3mpane\x1b[0m tab scroll";
    for max_len in 4..16 {
        let cut = truncate_ansi_string(text, "...", max_len);
        assert_eq!(calculate_visible_length(&cut), max_len);
    }
}

#[test]
fn truncating_twice_changes_nothing() {
    for text in ["\x1b[1mabc\x1b[0mdef", "abcdefgh", "ab", " \x1b[1mpane\x1b[0m tab"] {
        for max_len in 0..12 {
            for overflow in ["...", "…", ""] {
                let once = truncate_ansi_string(text, overflow, max_len);
                assert_eq!(truncate_ansi_string(&once, overflow, max_len), once);
            }
        }
    }
}

#[test]
fn segments_give_back_the_text_and_end_for_good() {
    let text = "a\x1b[1mbc\x1b[0m\x1b[3";
    let mut parser = AnsiParser::new(text);
    let mut rebuilt = String::new();
    let mut count = 0;
    while let Some(segment) = parser.next_segment() {
        match segment {
            AnsiSegment::EscapeSequence(e) => rebuilt.push_str(&e),
            AnsiSegment::VisibleChar(c) => rebuilt.push(c),
        }
        count += 1;
    }
    assert_eq!(rebuilt, text);
    assert_eq!(count, 6);
    assert!(count <= text.chars().count());
    assert!(parser.next_segment().is_none());
    assert!(parser.next_segment().is_none());
}
