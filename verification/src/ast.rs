//! The expression syntax tree and the operator tables.

use vstd::prelude::*;

use crate::token::TokenKind;

verus! {

/// Unary prefix operators.
#[derive(Clone, Copy, Debug, PartialEq, Eq, Structural)]
pub enum UnaryOp {
    Negate,
}

/// Binary operators, in every precedence tier of the grammar.
#[derive(Clone, Copy, Debug, PartialEq, Eq, Structural)]
pub enum BinOp {
    Or,
    And,
    Eq,
    NotEq,
    Less,
    Greater,
    LessEq,
    GreaterEq,
    Add,
    Subtract,
    Multiply,
    Divide,
    Power,
}

/// An expression tree. Literal and identifier leaves carry the half-open
/// character range `[start, end)` of their lexeme in the source text.
#[derive(Debug, PartialEq, Eq)]
pub enum Expr {
    IntegerLiteral { start: usize, end: usize },
    FloatLiteral { start: usize, end: usize },
    StringLiteral { start: usize, end: usize },
    Identifier { start: usize, end: usize },
    Unary { op: UnaryOp, operand: Box<Expr> },
    Binary { op: BinOp, left: Box<Expr>, right: Box<Expr> },
    Grouping { inner: Box<Expr> },
}

/// A structural violation of the expression grammar.
#[derive(Clone, Copy, Debug, PartialEq, Eq, Structural)]
pub enum ParseError {
    /// An operand was required, but the token starting at this character
    /// offset cannot begin one.
    ExpectedOperand { pos: usize },
    /// An operand was required, but the input ended first.
    UnexpectedEnd,
    /// The parenthesis opened at this character offset has no matching
    /// closing parenthesis.
    UnmatchedParenthesis { open: usize },
    /// A complete expression was parsed, but a token starting at this
    /// character offset follows it.
    TrailingToken { pos: usize },
}

/// Either kind of front-end failure.
#[derive(Clone, Copy, Debug, PartialEq, Eq, Structural)]
pub enum Error {
    Lexical(crate::lexer::LexError),
    Syntax(ParseError),
}

/// The binary operator read from a token kind, when there is one.
pub open spec fn binop_of(k: TokenKind) -> Option<BinOp> {
    match k {
        TokenKind::LogicalOr => Some(BinOp::Or),
        TokenKind::LogicalAnd => Some(BinOp::And),
        TokenKind::LogicalEquals => Some(BinOp::Eq),
        TokenKind::LogicalNotEquals => Some(BinOp::NotEq),
        TokenKind::LogicalLessThan => Some(BinOp::Less),
        TokenKind::LogicalGreaterThan => Some(BinOp::Greater),
        TokenKind::LogicalLessThanOrEquals => Some(BinOp::LessEq),
        TokenKind::LogicalGreaterThanOrEquals => Some(BinOp::GreaterEq),
        TokenKind::Plus => Some(BinOp::Add),
        TokenKind::Hyphen => Some(BinOp::Subtract),
        TokenKind::Asterisk => Some(BinOp::Multiply),
        TokenKind::Solidus => Some(BinOp::Divide),
        TokenKind::Circumflex => Some(BinOp::Power),
        _ => None,
    }
}

/// Precedence tiers, low to high. Every tier is left-associative except
/// power, which is right-associative; unary prefix sits above them all.
pub open spec fn prec_of(op: BinOp) -> int {
    match op {
        BinOp::Or => 1,
        BinOp::And => 2,
        BinOp::Eq => 3,
        BinOp::NotEq => 3,
        BinOp::Less => 4,
        BinOp::Greater => 4,
        BinOp::LessEq => 4,
        BinOp::GreaterEq => 4,
        BinOp::Add => 5,
        BinOp::Subtract => 5,
        BinOp::Multiply => 6,
        BinOp::Divide => 6,
        BinOp::Power => 7,
    }
}

/// The precedence of the unary prefix tier.
pub open spec fn unary_prec() -> int {
    8
}

pub open spec fn is_right_assoc(op: BinOp) -> bool {
    op == BinOp::Power
}

pub(crate) fn binop_of_x(k: TokenKind) -> (r: Option<BinOp>)
    ensures
        r == binop_of(k),
{
    match k {
        TokenKind::LogicalOr => Some(BinOp::Or),
        TokenKind::LogicalAnd => Some(BinOp::And),
        TokenKind::LogicalEquals => Some(BinOp::Eq),
        TokenKind::LogicalNotEquals => Some(BinOp::NotEq),
        TokenKind::LogicalLessThan => Some(BinOp::Less),
        TokenKind::LogicalGreaterThan => Some(BinOp::Greater),
        TokenKind::LogicalLessThanOrEquals => Some(BinOp::LessEq),
        TokenKind::LogicalGreaterThanOrEquals => Some(BinOp::GreaterEq),
        TokenKind::Plus => Some(BinOp::Add),
        TokenKind::Hyphen => Some(BinOp::Subtract),
        TokenKind::Asterisk => Some(BinOp::Multiply),
        TokenKind::Solidus => Some(BinOp::Divide),
        TokenKind::Circumflex => Some(BinOp::Power),
        _ => None,
    }
}

pub(crate) fn prec_of_x(op: BinOp) -> (p: u32)
    ensures
        p as int == prec_of(op),
        1 <= p <= 7,
{
    match op {
        BinOp::Or => 1,
        BinOp::And => 2,
        BinOp::Eq => 3,
        BinOp::NotEq => 3,
        BinOp::Less => 4,
        BinOp::Greater => 4,
        BinOp::LessEq => 4,
        BinOp::GreaterEq => 4,
        BinOp::Add => 5,
        BinOp::Subtract => 5,
        BinOp::Multiply => 6,
        BinOp::Divide => 6,
        BinOp::Power => 7,
    }
}

pub(crate) fn is_right_assoc_x(op: BinOp) -> (b: bool)
    ensures
        b == is_right_assoc(op),
{
    match op {
        BinOp::Power => true,
        _ => false,
    }
}

} // verus!
