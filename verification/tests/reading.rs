use gdcheck::utils::parse::{
    consume, consume_while, consume_whitespace_and_comments, next_char_is_break,
    parse_whitespace_and_comments, ParseError, ParseResult, ParsedAndIndex, Sourcable, Sourced,
    Span,
};

#[test]
fn test_consume() {
    let res = consume("dfjkhgsdfg", 3, "k");
    assert_eq!(
        res,
        ParseResult::Parsed(ParsedAndIndex {
            parsed: "k",
            index: 4
        })
    );
}

#[test]
fn test_consume_while() {
    let res = consume_while("abc123", 0, |(_, ch)| ch.is_alphabetic());

    assert_eq!(
        res,
        ParseResult::Parsed(ParsedAndIndex {
            parsed: "abc",
            index: 3
        })
    );
}

#[test]
fn consume_ignores_the_case_of_ascii_letters() {
    assert_eq!(
        consume("Object(", 0, "object"),
        ParseResult::Parsed(ParsedAndIndex { parsed: "object", index: 6 })
    );
    assert_eq!(consume("abc", 1, "x"), ParseResult::Nothing);
    assert_eq!(consume("abc", 2, "cd"), ParseResult::Nothing);
    assert_eq!(consume("abc", 7, "a"), ParseResult::Nothing);
}

#[test]
fn consume_while_steps_over_whole_characters() {
    let res = consume_while("ééz", 0, |(_, ch)| ch == 'é');
    assert_eq!(
        res,
        ParseResult::Parsed(ParsedAndIndex { parsed: "éé", index: 4 })
    );
    let none = consume_while("abc", 1, |(i, _)| i > 5);
    assert_eq!(
        none,
        ParseResult::Parsed(ParsedAndIndex { parsed: "", index: 1 })
    );
}

#[test]
fn blanks_and_comments_are_skipped() {
    let code = "  ; a comment\n\tkey";
    assert_eq!(
        consume_whitespace_and_comments(code, 0, ';'),
        ParseResult::Parsed(ParsedAndIndex { parsed: 15, index: 15 })
    );
    assert_eq!(
        parse_whitespace_and_comments("key", 0, ';', false),
        ParseResult::Parsed(ParsedAndIndex { parsed: 0, index: 0 })
    );
    assert_eq!(
        parse_whitespace_and_comments("key", 0, ';', true),
        ParseResult::Failed(ParseError { msg: "Expected whitespace".into(), index: 0 })
    );
    assert_eq!(
        parse_whitespace_and_comments(" \u{a0}key", 0, ';', true),
        ParseResult::Parsed(ParsedAndIndex { parsed: 3, index: 3 })
    );
}

#[test]
fn a_break_is_a_blank_or_the_end() {
    assert!(next_char_is_break("a b", 1));
    assert!(!next_char_is_break("a b", 2));
    assert!(next_char_is_break("a b", 3));
    assert!(next_char_is_break("a\u{2003}b", 1));
}

#[test]
fn steps_chain() {
    let read = ParseResult::Parsed(ParsedAndIndex { parsed: 2u32, index: 7 });
    assert_eq!(
        read.clone().map(|n| n + 1),
        ParseResult::Parsed(ParsedAndIndex { parsed: 3u32, index: 7 })
    );
    assert_eq!(
        read.clone().given(|r| ParseResult::Parsed(ParsedAndIndex { parsed: r.parsed * 2, index: r.index + 1 })),
        ParseResult::Parsed(ParsedAndIndex { parsed: 4u32, index: 8 })
    );
    let nothing: ParseResult<u32> = ParseResult::Nothing;
    assert_eq!(
        nothing.clone().expec("Expected ']'", 5, |r| ParseResult::Parsed(r)),
        ParseResult::Failed(ParseError { msg: "Expected ']'".into(), index: 5 })
    );
    assert_eq!(nothing.clone().or(|| read.clone()), read);
    assert_eq!(read.clone().or(|| ParseResult::Nothing), read);
    assert_eq!(
        nothing.clone().optional(9, |r| ParseResult::Parsed(r)),
        ParseResult::Parsed(ParsedAndIndex { parsed: None, index: 9 })
    );
    assert_eq!(
        read.clone().optional(9, |r| ParseResult::Parsed(r)),
        ParseResult::Parsed(ParsedAndIndex { parsed: Some(2u32), index: 7 })
    );
    assert_eq!(read.unwrap(), 2);
    let failed: ParseResult<u32> = ParseResult::Failed(ParseError { msg: "no".into(), index: 1 });
    assert_eq!(failed.clone().map(|n| n + 1), failed);
    assert_eq!(ParseResult::<u32>::from(None), ParseResult::Nothing);
    assert_eq!(
        ParseResult::from(Some(ParsedAndIndex { parsed: 1u32, index: 2 })),
        ParseResult::Parsed(ParsedAndIndex { parsed: 1u32, index: 2 })
    );
}

#[test]
fn mapping_keeps_the_index_and_the_span() {
    let read = ParsedAndIndex { parsed: "ab", index: 2 };
    assert_eq!(read.clone().map(|s| s.len()), ParsedAndIndex { parsed: 2usize, index: 2 });
    assert_eq!(read.map_parsed(|s| s.len()), ParsedAndIndex { parsed: 2usize, index: 2 });
    let sourced = 5u8.spanning(Span { start: 1, end: 2 });
    assert_eq!(sourced, Sourced { ast: 5u8, span: Some(Span { start: 1, end: 2 }) });
    assert_eq!(sourced.map(|n| n + 1), Sourced { ast: 6u8, span: Some(Span { start: 1, end: 2 }) });
    assert_eq!(7u8.unsourced(), Sourced { ast: 7u8, span: None });
}

#[test]
fn an_error_reads_as_a_line() {
    let err = ParseError { msg: "Unclosed string".into(), index: 120 };
    assert_eq!(err.to_string(), "Parse error at index 120: Unclosed string");
    let at_zero = ParseError { msg: "x".into(), index: 0 };
    assert_eq!(at_zero.to_string(), "Parse error at index 0: x");
}

#[test]
fn a_break_is_also_what_is_past_the_end_or_inside_a_character() {
    assert!(next_char_is_break("ab c", 2));
    assert!(!next_char_is_break("ab c", 1));
    assert!(next_char_is_break("ab", 2));
    assert!(next_char_is_break("ab", 9));
    assert!(next_char_is_break("é", 1));
    assert!(!next_char_is_break("é", 0));
    assert!(next_char_is_break("a\tb", 1));
    assert!(next_char_is_break("a\u{3000}b", 1));
    assert!(!next_char_is_break("a\u{200b}b", 1));
}

#[test]
fn the_empty_text_stands_everywhere() {
    assert_eq!(
        consume("abc", 9, ""),
        ParseResult::Parsed(ParsedAndIndex { parsed: "", index: 9 })
    );
    assert_eq!(
        consume("abc", 1, ""),
        ParseResult::Parsed(ParsedAndIndex { parsed: "", index: 1 })
    );
    assert_eq!(consume("abc", 3, "a"), ParseResult::Nothing);
}
