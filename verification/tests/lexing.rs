use expr_parser::lexer::tokenize;
use expr_parser::token::{Token, TokenKind};

fn tok(kind: TokenKind, start: usize, end: usize) -> Token {
    Token { kind, start, end }
}

#[test]
fn integer_spans_whole_input() {
    let toks = tokenize("123").unwrap();
    assert_eq!(toks, vec![tok(TokenKind::Integer, 0, 3)]);
}

#[test]
fn float_with_fraction() {
    let toks = tokenize("123.45").unwrap();
    assert_eq!(toks, vec![tok(TokenKind::Float, 0, 6)]);
}

#[test]
fn float_leading_dot() {
    let toks = tokenize(".5").unwrap();
    assert_eq!(toks, vec![tok(TokenKind::Float, 0, 2)]);
}

#[test]
fn float_with_exponent() {
    let toks = tokenize("12.3e-4").unwrap();
    assert_eq!(toks, vec![tok(TokenKind::Float, 0, 7)]);
}

#[test]
fn identifier_with_digits_not_split() {
    let toks = tokenize("abc123").unwrap();
    assert_eq!(toks, vec![tok(TokenKind::Identifier, 0, 6)]);
}

#[test]
fn string_with_escaped_quote() {
    // Source text: a quote, letter a, escaped quote, letter b, quote.
    let toks = tokenize("\"a\\\"b\"").unwrap();
    assert_eq!(toks, vec![tok(TokenKind::StringLiteral, 0, 6)]);
}

#[test]
fn double_equals_is_one_token() {
    let toks = tokenize("==").unwrap();
    assert_eq!(toks, vec![tok(TokenKind::LogicalEquals, 0, 2)]);
}

#[test]
fn less_or_equals_is_one_token() {
    let toks = tokenize("<=").unwrap();
    assert_eq!(toks, vec![tok(TokenKind::LogicalLessThanOrEquals, 0, 2)]);
}

#[test]
fn integer_then_period_on_trailing_dot() {
    // "123." has no digits after the dot, so Integer wins the tie with
    // the exponent-free Float match and the dot is a Period token.
    let toks = tokenize("123.").unwrap();
    assert_eq!(
        toks,
        vec![tok(TokenKind::Integer, 0, 3), tok(TokenKind::Period, 3, 4)]
    );
}

#[test]
fn keyword_beats_identifier_on_tie() {
    let toks = tokenize("let").unwrap();
    assert_eq!(toks, vec![tok(TokenKind::KeywordLet, 0, 3)]);
}

#[test]
fn identifier_beats_keyword_prefix() {
    let toks = tokenize("letter").unwrap();
    assert_eq!(toks, vec![tok(TokenKind::Identifier, 0, 6)]);
}

#[test]
fn whitespace_kept_as_tokens() {
    let toks = tokenize("1 + 2").unwrap();
    assert_eq!(
        toks,
        vec![
            tok(TokenKind::Integer, 0, 1),
            tok(TokenKind::Whitespace, 1, 2),
            tok(TokenKind::Plus, 2, 3),
            tok(TokenKind::Whitespace, 3, 4),
            tok(TokenKind::Integer, 4, 5),
        ]
    );
}

#[test]
fn line_comment_runs_to_end_of_line() {
    let toks = tokenize("// note\nx").unwrap();
    assert_eq!(
        toks,
        vec![
            tok(TokenKind::LineComment, 0, 7),
            tok(TokenKind::Whitespace, 7, 8),
            tok(TokenKind::Identifier, 8, 9),
        ]
    );
}

#[test]
fn reverse_solidus_is_a_token() {
    let toks = tokenize("\\x").unwrap();
    assert_eq!(
        toks,
        vec![
            tok(TokenKind::ReverseSolidus, 0, 1),
            tok(TokenKind::Identifier, 1, 2),
        ]
    );
}

#[test]
fn unrecognized_character_is_lexical_error() {
    let err = tokenize("@").unwrap_err();
    assert_eq!(err.pos, 0);
}

#[test]
fn lexical_error_carries_offset() {
    let err = tokenize("ab @").unwrap_err();
    assert_eq!(err.pos, 3);
}

#[test]
fn unterminated_string_is_lexical_error() {
    let err = tokenize("\"abc").unwrap_err();
    assert_eq!(err.pos, 0);
}

#[test]
fn bad_escape_in_string_is_lexical_error() {
    // Only \" and \\ are accepted inside a string body.
    let err = tokenize("\"a\\n\"").unwrap_err();
    assert_eq!(err.pos, 0);
}

#[test]
fn integer_with_exponent_is_float() {
    let toks = tokenize("12e5").unwrap();
    assert_eq!(toks, vec![tok(TokenKind::Float, 0, 4)]);
}

#[test]
fn bare_exponent_marker_stays_out_of_the_number() {
    // "1e" has no exponent digits, so the Float match stops at length 1,
    // ties with Integer, and Integer wins; the `e` is an identifier.
    let toks = tokenize("1e").unwrap();
    assert_eq!(
        toks,
        vec![
            tok(TokenKind::Integer, 0, 1),
            tok(TokenKind::Identifier, 1, 2),
        ]
    );
}

#[test]
fn pull_cursor_matches_one_shot_lexing() {
    let input = "let x = 1 // c";
    let toks = tokenize(input).unwrap();
    let mut cursor = expr_parser::lexer::Lexer::new(input);
    let mut got = Vec::new();
    while let Some(item) = cursor.next() {
        got.push(item.unwrap());
    }
    assert_eq!(got, toks);
}

#[test]
fn pull_cursor_reports_error_without_advancing() {
    let mut cursor = expr_parser::lexer::Lexer::new("1 @");
    assert!(matches!(cursor.next(), Some(Ok(_))));
    assert!(matches!(cursor.next(), Some(Ok(_))));
    let e = cursor.next().unwrap().unwrap_err();
    assert_eq!(e.pos, 2);
    let e2 = cursor.next().unwrap().unwrap_err();
    assert_eq!(e2.pos, 2);
}

#[test]
fn tokens_partition_the_input_losslessly() {
    let input = "let x = (1 + 2.5) // sum";
    let toks = tokenize(input).unwrap();
    let mut next = 0;
    for t in &toks {
        assert_eq!(t.start, next);
        assert!(t.end > t.start);
        next = t.end;
    }
    assert_eq!(next, input.chars().count());
}
