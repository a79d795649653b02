//! Token categories and their canonical textual renderings.

use vstd::prelude::*;

verus! {

/// Closed set of lexical categories. Fixed-text kinds (operators,
/// punctuation, brackets, keywords) match exactly one source string;
/// the remaining kinds match character classes.
#[derive(Clone, Copy, Debug, PartialEq, Eq, Structural)]
pub enum TokenKind {
    // Programmatic
    Equals,
    // Mathematical
    Plus,
    Hyphen,
    Asterisk,
    Solidus,
    ReverseSolidus,
    Circumflex,
    // Boolean
    LogicalEquals,
    LogicalNotEquals,
    LogicalLessThan,
    LogicalGreaterThan,
    LogicalLessThanOrEquals,
    LogicalGreaterThanOrEquals,
    LogicalAnd,
    LogicalOr,
    // Punctuation
    Period,
    Comma,
    Colon,
    SemiColon,
    Underscore,
    // Bracket delimiters
    LeftParenthesis,
    RightParenthesis,
    LeftCurlyBracket,
    RightCurlyBracket,
    LeftSquareBracket,
    RightSquareBracket,
    // Keywords
    KeywordLet,
    KeywordIf,
    KeywordElse,
    KeywordFn,
    KeywordStruct,
    // Data types
    Integer,
    StringLiteral,
    Float,
    Identifier,
    // Trivia
    Whitespace,
    LineComment,
}

/// A token: a category together with the half-open range of character
/// offsets `[start, end)` that it covers in the source text.
#[derive(Clone, Copy, Debug, PartialEq, Eq, Structural)]
pub struct Token {
    pub kind: TokenKind,
    pub start: usize,
    pub end: usize,
}

/// The canonical display string of each token kind: the exact lexeme for
/// fixed-text kinds, a descriptive name for the character-class kinds.
pub open spec fn kind_text(k: TokenKind) -> Seq<char> {
    match k {
        TokenKind::Equals => "="@,
        TokenKind::Plus => "+"@,
        TokenKind::Hyphen => "-"@,
        TokenKind::Asterisk => "*"@,
        TokenKind::Solidus => "/"@,
        TokenKind::ReverseSolidus => "\\"@,
        TokenKind::Circumflex => "^"@,
        TokenKind::LogicalEquals => "=="@,
        TokenKind::LogicalNotEquals => "!="@,
        TokenKind::LogicalLessThan => "<"@,
        TokenKind::LogicalGreaterThan => ">"@,
        TokenKind::LogicalLessThanOrEquals => "<="@,
        TokenKind::LogicalGreaterThanOrEquals => ">="@,
        TokenKind::LogicalAnd => "&&"@,
        TokenKind::LogicalOr => "||"@,
        TokenKind::Period => "."@,
        TokenKind::Comma => ","@,
        TokenKind::Colon => ":"@,
        TokenKind::SemiColon => ";"@,
        TokenKind::Underscore => "_"@,
        TokenKind::LeftParenthesis => "("@,
        TokenKind::RightParenthesis => ")"@,
        TokenKind::LeftCurlyBracket => "{"@,
        TokenKind::RightCurlyBracket => "}"@,
        TokenKind::LeftSquareBracket => "["@,
        TokenKind::RightSquareBracket => "]"@,
        TokenKind::KeywordLet => "let"@,
        TokenKind::KeywordIf => "if"@,
        TokenKind::KeywordElse => "else"@,
        TokenKind::KeywordFn => "fn"@,
        TokenKind::KeywordStruct => "struct"@,
        TokenKind::Integer => "Integer"@,
        TokenKind::StringLiteral => "String"@,
        TokenKind::Float => "Float"@,
        TokenKind::Identifier => "Identifier"@,
        TokenKind::Whitespace => "<Whitespace>"@,
        TokenKind::LineComment => "<LineComment>"@,
    }
}

/// Kinds whose canonical display string is the exact source lexeme.
pub open spec fn is_fixed_kind(k: TokenKind) -> bool {
    !(k == TokenKind::Integer || k == TokenKind::StringLiteral || k == TokenKind::Float
        || k == TokenKind::Identifier || k == TokenKind::Whitespace || k
        == TokenKind::LineComment)
}

impl TokenKind {
    /// The canonical display string, used in diagnostics and tooling.
    pub fn display(&self) -> (r: &'static str)
        ensures
            r@ == kind_text(*self),
    {
        match self {
            TokenKind::Equals => "=",
            TokenKind::Plus => "+",
            TokenKind::Hyphen => "-",
            TokenKind::Asterisk => "*",
            TokenKind::Solidus => "/",
            TokenKind::ReverseSolidus => "\\",
            TokenKind::Circumflex => "^",
            TokenKind::LogicalEquals => "==",
            TokenKind::LogicalNotEquals => "!=",
            TokenKind::LogicalLessThan => "<",
            TokenKind::LogicalGreaterThan => ">",
            TokenKind::LogicalLessThanOrEquals => "<=",
            TokenKind::LogicalGreaterThanOrEquals => ">=",
            TokenKind::LogicalAnd => "&&",
            TokenKind::LogicalOr => "||",
            TokenKind::Period => ".",
            TokenKind::Comma => ",",
            TokenKind::Colon => ":",
            TokenKind::SemiColon => ";",
            TokenKind::Underscore => "_",
            TokenKind::LeftParenthesis => "(",
            TokenKind::RightParenthesis => ")",
            TokenKind::LeftCurlyBracket => "{",
            TokenKind::RightCurlyBracket => "}",
            TokenKind::LeftSquareBracket => "[",
            TokenKind::RightSquareBracket => "]",
            TokenKind::KeywordLet => "let",
            TokenKind::KeywordIf => "if",
            TokenKind::KeywordElse => "else",
            TokenKind::KeywordFn => "fn",
            TokenKind::KeywordStruct => "struct",
            TokenKind::Integer => "Integer",
            TokenKind::StringLiteral => "String",
            TokenKind::Float => "Float",
            TokenKind::Identifier => "Identifier",
            TokenKind::Whitespace => "<Whitespace>",
            TokenKind::LineComment => "<LineComment>",
        }
    }
}

} // verus!
