//! The parser: builds an expression tree from the token sequence by
//! precedence climbing, honouring the precedence and associativity
//! tables in `ast` and matching parentheses.
//!
//! The grammar is specified by three mutually recursive functions:
//! `spec_parse_primary` (literal, identifier, unary prefix, or a
//! parenthesized expression), `spec_parse_ops` (the climbing loop that
//! folds binary operators of sufficient precedence), and
//! `spec_parse_expr` (an operand followed by the climbing loop).

use vstd::prelude::*;

use crate::ast::{binop_of, binop_of_x, is_right_assoc, is_right_assoc_x, prec_of, prec_of_x,
    unary_prec, BinOp, Error, Expr, ParseError, UnaryOp};
use crate::lexer::{spec_tokens, tokenize, LexError};
use crate::token::{Token, TokenKind};

verus! {

/// Tokens the parser skips: whitespace and line comments.
pub open spec fn is_trivia(k: TokenKind) -> bool {
    k == TokenKind::Whitespace || k == TokenKind::LineComment
}

fn is_trivia_x(k: TokenKind) -> (b: bool)
    ensures
        b == is_trivia(k),
{
    match k {
        TokenKind::Whitespace => true,
        TokenKind::LineComment => true,
        _ => false,
    }
}

/// The token sequence with whitespace and comment tokens removed.
pub open spec fn filter_trivia(toks: Seq<Token>) -> Seq<Token>
    decreases toks.len(),
{
    if toks.len() == 0 {
        Seq::empty()
    } else {
        let rest = filter_trivia(toks.drop_first());
        if is_trivia(toks[0].kind) {
            rest
        } else {
            seq![toks[0]] + rest
        }
    }
}

/// Parses one operand: a literal or identifier leaf, a unary prefix
/// applied to an operand, or a parenthesized expression. Returns the
/// tree and the position just past it.
pub open spec fn spec_parse_primary(toks: Seq<Token>, pos: int) -> Result<(Expr, int), ParseError>
    decreases toks.len() - pos, 0int,
    when 0 <= pos <= toks.len()
{
    if pos >= toks.len() {
        Err(ParseError::UnexpectedEnd)
    } else {
        let t = toks[pos];
        match t.kind {
            TokenKind::Integer => Ok((Expr::IntegerLiteral { start: t.start, end: t.end }, pos + 1)),
            TokenKind::Float => Ok((Expr::FloatLiteral { start: t.start, end: t.end }, pos + 1)),
            TokenKind::StringLiteral => Ok(
                (Expr::StringLiteral { start: t.start, end: t.end }, pos + 1),
            ),
            TokenKind::Identifier => Ok((Expr::Identifier { start: t.start, end: t.end }, pos + 1)),
            TokenKind::Hyphen => match spec_parse_expr(toks, pos + 1, unary_prec()) {
                Err(e) => Err(e),
                Ok((inner, p)) => Ok(
                    (Expr::Unary { op: UnaryOp::Negate, operand: Box::new(inner) }, p),
                ),
            },
            TokenKind::LeftParenthesis => match spec_parse_expr(toks, pos + 1, 1) {
                Err(e) => Err(e),
                Ok((inner, p)) => {
                    if 0 <= p < toks.len() && toks[p].kind == TokenKind::RightParenthesis {
                        Ok((Expr::Grouping { inner: Box::new(inner) }, p + 1))
                    } else {
                        Err(ParseError::UnmatchedParenthesis { open: t.start })
                    }
                },
            },
            _ => Err(ParseError::ExpectedOperand { pos: t.start }),
        }
    }
}

/// The climbing loop: with `lhs` parsed and the cursor at `pos`, folds
/// in every following binary operator whose precedence is at least
/// `min_prec`, giving the right-hand side one more level for a
/// left-associative operator and the same level for a right-associative
/// one; stops at the end, at a non-operator, or at a weaker operator.
pub open spec fn spec_parse_ops(toks: Seq<Token>, pos: int, lhs: Expr, min_prec: int) -> Result<
    (Expr, int),
    ParseError,
>
    decreases toks.len() - pos, 2int,
    when 0 <= pos <= toks.len()
{
    if pos >= toks.len() {
        Ok((lhs, pos))
    } else {
        match binop_of(toks[pos].kind) {
            None => Ok((lhs, pos)),
            Some(op) => {
                if prec_of(op) < min_prec {
                    Ok((lhs, pos))
                } else {
                    let next_min: int = if is_right_assoc(op) {
                        prec_of(op)
                    } else {
                        prec_of(op) + 1
                    };
                    match spec_parse_expr(toks, pos + 1, next_min) {
                        Err(e) => Err(e),
                        Ok((rhs, p2)) => {
                            // The bounds test keeps the recursion well-founded;
                            // a successful sub-parse always advances in bounds,
                            // so the failing branch is never taken.
                            if pos < p2 <= toks.len() {
                                spec_parse_ops(
                                    toks,
                                    p2,
                                    Expr::Binary { op, left: Box::new(lhs), right: Box::new(rhs) },
                                    min_prec,
                                )
                            } else {
                                Err(ParseError::UnexpectedEnd)
                            }
                        },
                    }
                }
            },
        }
    }
}

/// Parses an expression whose binary operators all have precedence at
/// least `min_prec`: an operand followed by the climbing loop.
pub open spec fn spec_parse_expr(toks: Seq<Token>, pos: int, min_prec: int) -> Result<
    (Expr, int),
    ParseError,
>
    decreases toks.len() - pos, 1int,
    when 0 <= pos <= toks.len()
{
    match spec_parse_primary(toks, pos) {
        Err(e) => Err(e),
        Ok((lhs, p)) => {
            // The bounds test keeps the recursion well-founded; a parsed
            // operand always advances in bounds, so the failing branch is
            // never taken.
            if pos < p <= toks.len() {
                spec_parse_ops(toks, p, lhs, min_prec)
            } else {
                Err(ParseError::UnexpectedEnd)
            }
        },
    }
}

/// Parses one full expression from a token sequence: trivia is filtered
/// out, the expression grammar must consume every remaining token.
pub open spec fn spec_parse(toks: Seq<Token>) -> Result<Expr, ParseError> {
    let sig = filter_trivia(toks);
    match spec_parse_expr(sig, 0, 1) {
        Err(e) => Err(e),
        Ok((e, p)) => {
            if p == sig.len() {
                Ok(e)
            } else {
                Err(ParseError::TrailingToken { pos: sig[p].start })
            }
        },
    }
}

/// The whole front end on source text: lex, then parse.
pub open spec fn spec_parse_text(s: Seq<char>) -> Result<Expr, Error> {
    match spec_tokens(s, 0) {
        Err(p) => Err(Error::Lexical(LexError { pos: p as usize })),
        Ok(toks) => match spec_parse(toks) {
            Ok(e) => Ok(e),
            Err(pe) => Err(Error::Syntax(pe)),
        },
    }
}

fn filter_tokens(toks: &Vec<Token>) -> (r: Vec<Token>)
    ensures
        r@ == filter_trivia(toks@),
{
    let mut out: Vec<Token> = Vec::new();
    let mut i: usize = 0;
    proof {
        assert(toks@.skip(0) =~= toks@);
        assert(Seq::<Token>::empty() + filter_trivia(toks@) =~= filter_trivia(toks@));
    }
    while i < toks.len()
        invariant
            0 <= i <= toks@.len(),
            out@ + filter_trivia(toks@.skip(i as int)) == filter_trivia(toks@),
        decreases toks@.len() - i,
    {
        let t = toks[i];
        proof {
            assert(toks@.skip(i as int).drop_first() =~= toks@.skip(i + 1));
            assert(toks@.skip(i as int)[0] == toks@[i as int]);
            if !is_trivia(toks@[i as int].kind) {
                assert(out@.push(t) + filter_trivia(toks@.skip(i + 1)) =~= out@ + (seq![t]
                    + filter_trivia(toks@.skip(i + 1))));
            }
        }
        if !is_trivia_x(t.kind) {
            out.push(t);
        }
        i = i + 1;
    }
    proof {
        assert(toks@.skip(i as int) =~= Seq::<Token>::empty());
        assert(out@ + Seq::<Token>::empty() =~= out@);
    }
    out
}

fn parse_primary(toks: &Vec<Token>, pos: usize) -> (r: Result<(Expr, usize), ParseError>)
    requires
        pos <= toks@.len(),
    ensures
        match r {
            Ok((e, p)) => spec_parse_primary(toks@, pos as int) == Ok::<(Expr, int), ParseError>(
                (e, p as int),
            ) && pos < p <= toks@.len(),
            Err(er) => spec_parse_primary(toks@, pos as int) == Err::<(Expr, int), ParseError>(er),
        },
    decreases toks@.len() - pos, 0int,
{
    let vl = toks.len();
    if pos >= vl {
        return Err(ParseError::UnexpectedEnd);
    }
    let t = toks[pos];
    match t.kind {
        TokenKind::Integer => Ok((Expr::IntegerLiteral { start: t.start, end: t.end }, pos + 1)),
        TokenKind::Float => Ok((Expr::FloatLiteral { start: t.start, end: t.end }, pos + 1)),
        TokenKind::StringLiteral => Ok(
            (Expr::StringLiteral { start: t.start, end: t.end }, pos + 1),
        ),
        TokenKind::Identifier => Ok((Expr::Identifier { start: t.start, end: t.end }, pos + 1)),
        TokenKind::Hyphen => match parse_expr(toks, pos + 1, 8) {
            Err(e) => Err(e),
            Ok((inner, p)) => Ok(
                (Expr::Unary { op: UnaryOp::Negate, operand: Box::new(inner) }, p),
            ),
        },
        TokenKind::LeftParenthesis => match parse_expr(toks, pos + 1, 1) {
            Err(e) => Err(e),
            Ok((inner, p)) => {
                if p < vl && toks[p].kind == TokenKind::RightParenthesis {
                    Ok((Expr::Grouping { inner: Box::new(inner) }, p + 1))
                } else {
                    Err(ParseError::UnmatchedParenthesis { open: t.start })
                }
            },
        },
        _ => Err(ParseError::ExpectedOperand { pos: t.start }),
    }
}

fn parse_expr(toks: &Vec<Token>, pos: usize, min_prec: u32) -> (r: Result<
    (Expr, usize),
    ParseError,
>)
    requires
        pos <= toks@.len(),
    ensures
        match r {
            Ok((e, p)) => spec_parse_expr(toks@, pos as int, min_prec as int) == Ok::<
                (Expr, int),
                ParseError,
            >((e, p as int)) && pos < p <= toks@.len(),
            Err(er) => spec_parse_expr(toks@, pos as int, min_prec as int) == Err::<
                (Expr, int),
                ParseError,
            >(er),
        },
    decreases toks@.len() - pos, 1int,
{
    let vl = toks.len();
    let first = parse_primary(toks, pos);
    let (mut lhs, mut p): (Expr, usize) = match first {
        Err(e) => {
            return Err(e);
        },
        Ok(lp) => lp,
    };
    loop
        invariant
            pos < p <= vl,
            vl == toks@.len(),
            spec_parse_expr(toks@, pos as int, min_prec as int) == spec_parse_ops(
                toks@,
                p as int,
                lhs,
                min_prec as int,
            ),
        decreases vl - p,
    {
        if p >= vl {
            return Ok((lhs, p));
        }
        match binop_of_x(toks[p].kind) {
            None => {
                return Ok((lhs, p));
            },
            Some(op) => {
                let pr = prec_of_x(op);
                if pr < min_prec {
                    return Ok((lhs, p));
                }
                let next_min: u32 = if is_right_assoc_x(op) {
                    pr
                } else {
                    pr + 1
                };
                match parse_expr(toks, p + 1, next_min) {
                    Err(e) => {
                        return Err(e);
                    },
                    Ok((rhs, p2)) => {
                        lhs = Expr::Binary { op, left: Box::new(lhs), right: Box::new(rhs) };
                        p = p2;
                    },
                }
            },
        }
    }
}

/// Parses one full expression from an already-classified token
/// sequence: trivia tokens are skipped, the expression grammar must
/// consume every remaining token.
pub fn parse_tokens(toks: &Vec<Token>) -> (r: Result<Expr, ParseError>)
    ensures
        r == spec_parse(toks@),
{
    let sig = filter_tokens(toks);
    match parse_expr(&sig, 0, 1) {
        Err(pe) => Err(pe),
        Ok((e, p)) => {
            if p == sig.len() {
                Ok(e)
            } else {
                Err(ParseError::TrailingToken { pos: sig[p].start })
            }
        },
    }
}

/// A parser over the token stream of one source text, with the tokens
/// already classified and trivia still present.
pub struct Parser {
    tokens: Vec<Token>,
    lex_error: Option<LexError>,
    src: Ghost<Seq<char>>,
}

impl View for Parser {
    type V = Seq<char>;

    /// The source text this parser was built on.
    closed spec fn view(&self) -> Seq<char> {
        self.src@
    }
}

impl Parser {
    /// The held token stream agrees with the lexing of the source text.
    pub closed spec fn wf(&self) -> bool {
        match self.lex_error {
            Some(e) => spec_tokens(self.src@, 0) == Err::<Seq<Token>, int>(e.pos as int),
            None => spec_tokens(self.src@, 0) == Ok::<Seq<Token>, int>(self.tokens@),
        }
    }

    /// Builds a parser over the token stream of `input`.
    pub fn new(input: &str) -> (p: Parser)
        ensures
            p.wf(),
            p@ == input@,
    {
        match tokenize(input) {
            Ok(toks) => Parser { tokens: toks, lex_error: None, src: Ghost(input@) },
            Err(e) => Parser { tokens: Vec::new(), lex_error: Some(e), src: Ghost(input@) },
        }
    }

    /// Parses the source text as one full expression: exactly the result
    /// of lexing the text and running the expression grammar over its
    /// non-trivia tokens.
    pub fn parse(&self) -> (r: Result<Expr, Error>)
        requires
            self.wf(),
        ensures
            r == spec_parse_text(self@),
    {
        match self.lex_error {
            Some(e) => Err(Error::Lexical(e)),
            None => match parse_tokens(&self.tokens) {
                Ok(e) => Ok(e),
                Err(pe) => Err(Error::Syntax(pe)),
            },
        }
    }
}

} // verus!
