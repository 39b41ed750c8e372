use lexkit::PositionInfo;
use lexkit::SimpleTokenizer;
use lexkit::Token;
use lexkit::TokenizeError;
use lexkit::TokenizeErrorKind;

#[derive(Debug, Clone, Copy, PartialEq, Eq)]
enum Mark {
    Word,
}

#[test]
fn take_advances_by_utf8_width() {
    let src = "a\u{e9}\u{20ac}x";
    let mut cur = SimpleTokenizer::new(src);
    assert_eq!(cur.take().unwrap(), 'a');
    assert_eq!(cur.get_index(), 1);
    assert_eq!(cur.take().unwrap(), '\u{e9}');
    assert_eq!(cur.get_index(), 3);
    assert_eq!(cur.take().unwrap(), '\u{20ac}');
    assert_eq!(cur.get_index(), 6);
    assert_eq!(cur.take().unwrap(), 'x');
    assert_eq!(cur.get_index(), 7);
    assert!(!cur.has_more_chars());
}

#[test]
fn peek_never_moves_the_cursor() {
    let mut cur = SimpleTokenizer::new("ab");
    assert_eq!(cur.peek().unwrap(), 'a');
    assert_eq!(cur.peek().unwrap(), 'a');
    assert_eq!(cur.get_index(), 0);
    assert_eq!(cur.take().unwrap(), 'a');
    assert_eq!(cur.peek().unwrap(), 'b');
    assert_eq!(cur.get_index(), 1);
}

#[test]
fn end_token_content_roundtrip() {
    let src = "ab\u{e9}cd";
    let mut cur = SimpleTokenizer::new(src);
    cur.take().unwrap();
    cur.begin_token();
    cur.take().unwrap();
    cur.take().unwrap();
    let tok = cur.end_token(Mark::Word);
    assert_eq!(tok.index, 1);
    assert_eq!(tok.len, 3);
    assert_eq!(cur.content(&tok).unwrap(), "b\u{e9}");
    assert_eq!(cur.content(&tok).unwrap(), &src[1..4]);
}

#[test]
fn content_out_of_range_is_none() {
    let cur = SimpleTokenizer::new("abc");
    let tok = Token { kind: Mark::Word, index: 2, len: 5 };
    assert!(cur.content(&tok).is_none());
    let tok2 = Token { kind: Mark::Word, index: 10, len: 0 };
    assert!(cur.content(&tok2).is_none());
}

#[test]
fn content_inside_multibyte_char_is_none() {
    let cur = SimpleTokenizer::new("\u{20ac}b");
    let tok = Token { kind: Mark::Word, index: 1, len: 1 };
    assert!(cur.content(&tok).is_none());
}

#[test]
fn take_while_with_no_leading_match_is_noop() {
    let mut cur = SimpleTokenizer::new("abc123");
    let r = cur.take_while(|c: char| c.is_ascii_digit());
    assert!(r.is_none());
    assert_eq!(cur.get_index(), 0);
}

#[test]
fn take_while_consumes_matching_prefix() {
    let mut cur = SimpleTokenizer::new("123ab");
    let r = cur.take_while(|c: char| c.is_ascii_digit());
    assert_eq!(r.unwrap(), "123");
    assert_eq!(cur.get_index(), 3);
    assert_eq!(cur.peek().unwrap(), 'a');
}

#[test]
fn take_while_stops_at_end_of_input() {
    let mut cur = SimpleTokenizer::new("77");
    let r = cur.take_while(|c: char| c.is_ascii_digit());
    assert_eq!(r.unwrap(), "77");
    assert!(!cur.has_more_chars());
}

#[test]
fn expect_failure_leaves_index_unchanged() {
    let mut cur = SimpleTokenizer::new("abc");
    let e = cur.expect('x').unwrap_err();
    assert_eq!(e.index(), 0);
    assert!(matches!(e.kind(), TokenizeErrorKind::ExpectedChar { expected: 'x', got: 'a' }));
    assert_eq!(cur.get_index(), 0);
    assert_eq!(cur.peek().unwrap(), 'a');
}

#[test]
fn expect_success_advances_by_char_width() {
    let mut cur = SimpleTokenizer::new("\u{e9}a");
    cur.expect('\u{e9}').unwrap();
    assert_eq!(cur.get_index(), 2);
    cur.expect('a').unwrap();
    assert_eq!(cur.get_index(), 3);
}

#[test]
fn matches_and_match_and_take_chars() {
    let mut cur = SimpleTokenizer::new("\u{e9}b");
    assert!(cur.matches('\u{e9}'));
    assert!(!cur.matches('b'));
    assert_eq!(cur.get_index(), 0);
    assert!(!cur.match_and_take('b'));
    assert_eq!(cur.get_index(), 0);
    assert!(cur.match_and_take('\u{e9}'));
    assert_eq!(cur.get_index(), 2);
    assert_eq!(cur.peek().unwrap(), 'b');
}

#[test]
fn set_index_pulls_start_down() {
    let mut cur = SimpleTokenizer::new("abcdef");
    cur.take().unwrap();
    cur.take().unwrap();
    cur.begin_token();
    assert_eq!(cur.get_start(), 2);
    cur.set_index(1);
    assert_eq!(cur.get_index(), 1);
    assert_eq!(cur.get_start(), 1);
    cur.set_index(4);
    assert_eq!(cur.get_index(), 4);
    assert_eq!(cur.get_start(), 1);
}

#[test]
fn slice_returns_raw_range() {
    let cur = SimpleTokenizer::new("hello");
    assert_eq!(cur.slice(1..4), "ell");
    assert_eq!(cur.slice(0..0), "");
}

#[test]
fn tokenizer_from_str_starts_at_zero() {
    let mut cur = SimpleTokenizer::from("xy");
    assert_eq!(cur.get_index(), 0);
    assert_eq!(cur.get_start(), 0);
    assert_eq!(cur.take().unwrap(), 'x');
}

#[test]
fn error_constructors_carry_offset_and_kind() {
    let mut cur = SimpleTokenizer::new("ab");
    cur.take().unwrap();
    let e = cur.unexpected('b');
    assert_eq!(e.index(), 1);
    assert!(matches!(e.kind(), TokenizeErrorKind::UnexpectedChar { got: 'b' }));
    let e2 = cur.custom("bad digit");
    assert_eq!(e2.index(), 1);
    assert!(matches!(e2.kind(), TokenizeErrorKind::Custom { message: "bad digit" }));
}

#[test]
fn empty_text_fails_with_unexpected_end_at_zero() {
    let mut cur = SimpleTokenizer::new("");
    let e = cur.peek().unwrap_err();
    assert_eq!(e.index(), 0);
    assert!(matches!(e.kind(), TokenizeErrorKind::UnexpectedEndOfInput));
    let e = cur.take().unwrap_err();
    assert_eq!(e.index(), 0);
    assert!(matches!(e.kind(), TokenizeErrorKind::UnexpectedEndOfInput));
    let e = cur.expect('a').unwrap_err();
    assert_eq!(e.index(), 0);
    assert!(matches!(e.kind(), TokenizeErrorKind::UnexpectedEndOfInput));
    assert_eq!(cur.get_index(), 0);
}

#[test]
fn position_of_offset_in_second_line() {
    let err = TokenizeError { index: 3, kind: TokenizeErrorKind::UnexpectedEndOfInput };
    let info = TokenizeError::position(&err, "ab\ncd");
    assert_eq!(
        info,
        PositionInfo { line: 2, column: 0, line_start_index: 3, index: 3 }
    );
}

#[test]
fn position_of_offset_zero() {
    let err = TokenizeError { index: 0, kind: TokenizeErrorKind::UnexpectedEndOfInput };
    let info = TokenizeError::position(&err, "ab\ncd");
    assert_eq!(
        info,
        PositionInfo { line: 1, column: 0, line_start_index: 0, index: 0 }
    );
}

#[test]
fn position_of_newline_byte_itself() {
    let err = TokenizeError { index: 2, kind: TokenizeErrorKind::UnexpectedEndOfInput };
    let info = TokenizeError::position(&err, "ab\ncd");
    assert_eq!(info.line, 1);
    assert_eq!(info.column, 2);
    assert_eq!(info.line_start_index, 0);
}

#[test]
fn position_past_end_reports_last_computed() {
    let err = TokenizeError { index: 99, kind: TokenizeErrorKind::UnexpectedEndOfInput };
    let info = TokenizeError::position(&err, "ab\ncd");
    assert_eq!(info.line, 2);
    assert_eq!(info.column, 2);
    assert_eq!(info.line_start_index, 3);
    assert_eq!(info.index, 99);
}

#[test]
fn position_counts_multibyte_chars_once() {
    let src = "\u{e9}\u{e9}\n\u{e9}z";
    let err = TokenizeError { index: 7, kind: TokenizeErrorKind::UnexpectedEndOfInput };
    let info = TokenizeError::position(&err, src);
    assert_eq!(info.line, 2);
    assert_eq!(info.column, 1);
    assert_eq!(info.line_start_index, 5);
}

#[test]
fn token_range_matches_span() {
    let tok = Token { kind: Mark::Word, index: 3, len: 4 };
    let r = Token::range(&tok);
    assert_eq!(r.start, 3);
    assert_eq!(r.end, 7);
}
