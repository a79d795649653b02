use expr_parser::token::TokenKind;

#[test]
fn token_display() {
    assert_eq!(TokenKind::Equals.display(), "=");

    assert_eq!(TokenKind::Plus.display(), "+");
    assert_eq!(TokenKind::Hyphen.display(), "-");
    assert_eq!(TokenKind::Asterisk.display(), "*");
    assert_eq!(TokenKind::Solidus.display(), "/");
    assert_eq!(TokenKind::ReverseSolidus.display(), r"\");
    assert_eq!(TokenKind::Circumflex.display(), "^");

    assert_eq!(TokenKind::LogicalEquals.display(), "==");
    assert_eq!(TokenKind::LogicalNotEquals.display(), "!=");
    assert_eq!(TokenKind::LogicalLessThan.display(), "<");
    assert_eq!(TokenKind::LogicalGreaterThan.display(), ">");
    assert_eq!(TokenKind::LogicalLessThanOrEquals.display(), "<=");
    assert_eq!(TokenKind::LogicalAnd.display(), "&&");
    assert_eq!(TokenKind::LogicalOr.display(), "||");

    assert_eq!(TokenKind::Period.display(), ".");
    assert_eq!(TokenKind::Comma.display(), ",");
    assert_eq!(TokenKind::Colon.display(), ":");
    assert_eq!(TokenKind::SemiColon.display(), ";");
    assert_eq!(TokenKind::Underscore.display(), "_");

    assert_eq!(TokenKind::LeftParenthesis.display(), "(");
    assert_eq!(TokenKind::RightParenthesis.display(), ")");
    assert_eq!(TokenKind::LeftCurlyBracket.display(), "{");
    assert_eq!(TokenKind::RightCurlyBracket.display(), "}");
    assert_eq!(TokenKind::LeftSquareBracket.display(), "[");
    assert_eq!(TokenKind::RightSquareBracket.display(), "]");

    assert_eq!(TokenKind::Integer.display(), "Integer");
    assert_eq!(TokenKind::StringLiteral.display(), "String");
    assert_eq!(TokenKind::Float.display(), "Float");
    assert_eq!(TokenKind::Identifier.display(), "Identifier");

    assert_eq!(TokenKind::Whitespace.display(), "<Whitespace>");
}

#[test]
fn token_display_extended() {
    assert_eq!(TokenKind::LogicalGreaterThanOrEquals.display(), ">=");
    assert_eq!(TokenKind::KeywordLet.display(), "let");
    assert_eq!(TokenKind::KeywordIf.display(), "if");
    assert_eq!(TokenKind::KeywordElse.display(), "else");
    assert_eq!(TokenKind::KeywordFn.display(), "fn");
    assert_eq!(TokenKind::KeywordStruct.display(), "struct");
    assert_eq!(TokenKind::LineComment.display(), "<LineComment>");
}

#[test]
fn display_round_trips_through_lexer() {
    // Every fixed-text kind, re-tokenized from its display string, comes
    // back as exactly one token of that kind spanning the whole string.
    let fixed = vec![
        TokenKind::Equals,
        TokenKind::Plus,
        TokenKind::Hyphen,
        TokenKind::Asterisk,
        TokenKind::Solidus,
        TokenKind::ReverseSolidus,
        TokenKind::Circumflex,
        TokenKind::LogicalEquals,
        TokenKind::LogicalNotEquals,
        TokenKind::LogicalLessThan,
        TokenKind::LogicalGreaterThan,
        TokenKind::LogicalLessThanOrEquals,
        TokenKind::LogicalGreaterThanOrEquals,
        TokenKind::LogicalAnd,
        TokenKind::LogicalOr,
        TokenKind::Period,
        TokenKind::Comma,
        TokenKind::Colon,
        TokenKind::SemiColon,
        TokenKind::Underscore,
        TokenKind::LeftParenthesis,
        TokenKind::RightParenthesis,
        TokenKind::LeftCurlyBracket,
        TokenKind::RightCurlyBracket,
        TokenKind::LeftSquareBracket,
        TokenKind::RightSquareBracket,
        TokenKind::KeywordLet,
        TokenKind::KeywordIf,
        TokenKind::KeywordElse,
        TokenKind::KeywordFn,
        TokenKind::KeywordStruct,
    ];
    for kind in fixed {
        let text = kind.display();
        let toks = expr_parser::lexer::tokenize(text).unwrap();
        assert_eq!(toks.len(), 1);
        assert_eq!(toks[0].kind, kind);
        assert_eq!(toks[0].start, 0);
        assert_eq!(toks[0].end, text.chars().count());
    }
}
