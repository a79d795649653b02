use expr_parser::ast::{BinOp, Error, Expr, ParseError, UnaryOp};
use expr_parser::parser::Parser;

fn parse(input: &str) -> Result<Expr, Error> {
    Parser::new(input).parse()
}

fn int_lit(start: usize, end: usize) -> Expr {
    Expr::IntegerLiteral { start, end }
}

fn binary(op: BinOp, left: Expr, right: Expr) -> Expr {
    Expr::Binary {
        op,
        left: Box::new(left),
        right: Box::new(right),
    }
}

#[test]
fn multiplication_binds_tighter_than_addition() {
    let tree = parse("1 + 2 * 3").unwrap();
    assert_eq!(
        tree,
        binary(
            BinOp::Add,
            int_lit(0, 1),
            binary(BinOp::Multiply, int_lit(4, 5), int_lit(8, 9)),
        )
    );
}

#[test]
fn power_is_right_associative() {
    let tree = parse("2 ^ 3 ^ 2").unwrap();
    assert_eq!(
        tree,
        binary(
            BinOp::Power,
            int_lit(0, 1),
            binary(BinOp::Power, int_lit(4, 5), int_lit(8, 9)),
        )
    );
}

#[test]
fn parentheses_group_the_sum() {
    let tree = parse("(1 + 2) * 3").unwrap();
    assert_eq!(
        tree,
        binary(
            BinOp::Multiply,
            Expr::Grouping {
                inner: Box::new(binary(BinOp::Add, int_lit(1, 2), int_lit(5, 6))),
            },
            int_lit(10, 11),
        )
    );
}

#[test]
fn trailing_operator_is_a_parse_error() {
    let err = parse("1 +").unwrap_err();
    assert_eq!(err, Error::Syntax(ParseError::UnexpectedEnd));
}

#[test]
fn unmatched_open_bracket_names_its_position() {
    let err = parse("(1 + 2").unwrap_err();
    assert_eq!(
        err,
        Error::Syntax(ParseError::UnmatchedParenthesis { open: 0 })
    );
}

#[test]
fn subtraction_is_left_associative() {
    let tree = parse("1 - 2 - 3").unwrap();
    assert_eq!(
        tree,
        binary(
            BinOp::Subtract,
            binary(BinOp::Subtract, int_lit(0, 1), int_lit(4, 5)),
            int_lit(8, 9),
        )
    );
}

#[test]
fn relational_binds_tighter_than_equality() {
    let tree = parse("1 < 2 == 3 > 4").unwrap();
    assert_eq!(
        tree,
        binary(
            BinOp::Eq,
            binary(BinOp::Less, int_lit(0, 1), int_lit(4, 5)),
            binary(BinOp::Greater, int_lit(9, 10), int_lit(13, 14)),
        )
    );
}

#[test]
fn and_binds_tighter_than_or() {
    let tree = parse("a && b || c").unwrap();
    assert_eq!(
        tree,
        binary(
            BinOp::Or,
            binary(
                BinOp::And,
                Expr::Identifier { start: 0, end: 1 },
                Expr::Identifier { start: 5, end: 6 },
            ),
            Expr::Identifier { start: 10, end: 11 },
        )
    );
}

#[test]
fn unary_negation_binds_tighter_than_power() {
    let tree = parse("-2 ^ 3").unwrap();
    assert_eq!(
        tree,
        binary(
            BinOp::Power,
            Expr::Unary {
                op: UnaryOp::Negate,
                operand: Box::new(int_lit(1, 2)),
            },
            int_lit(5, 6),
        )
    );
}

#[test]
fn stray_operator_where_operand_required() {
    let err = parse("1 + *").unwrap_err();
    assert_eq!(err, Error::Syntax(ParseError::ExpectedOperand { pos: 4 }));
}

#[test]
fn leftover_token_after_expression() {
    let err = parse("1 2").unwrap_err();
    assert_eq!(err, Error::Syntax(ParseError::TrailingToken { pos: 2 }));
}

#[test]
fn empty_input_is_a_parse_error() {
    let err = parse("").unwrap_err();
    assert_eq!(err, Error::Syntax(ParseError::UnexpectedEnd));
}

#[test]
fn lexical_error_propagates_through_parse() {
    let err = parse("1 + @").unwrap_err();
    assert_eq!(
        err,
        Error::Lexical(expr_parser::lexer::LexError { pos: 4 })
    );
}

#[test]
fn keyword_cannot_start_an_operand() {
    let err = parse("let").unwrap_err();
    assert_eq!(err, Error::Syntax(ParseError::ExpectedOperand { pos: 0 }));
}

#[test]
fn stray_closing_parenthesis_is_an_error() {
    let err = parse(")").unwrap_err();
    assert_eq!(err, Error::Syntax(ParseError::ExpectedOperand { pos: 0 }));
}

#[test]
fn single_equals_is_no_binary_operator() {
    let err = parse("a = b").unwrap_err();
    assert_eq!(err, Error::Syntax(ParseError::TrailingToken { pos: 2 }));
}

#[test]
fn comments_and_whitespace_are_filtered() {
    let tree = parse("1 + // one\n 2").unwrap();
    assert_eq!(tree, binary(BinOp::Add, int_lit(0, 1), int_lit(12, 13)));
}

#[test]
fn parse_tokens_accepts_a_pretokenized_sequence() {
    let toks = expr_parser::lexer::tokenize("1 + 2").unwrap();
    let tree = expr_parser::parser::parse_tokens(&toks).unwrap();
    assert_eq!(tree, binary(BinOp::Add, int_lit(0, 1), int_lit(4, 5)));
}

#[test]
fn literal_leaves_carry_their_kind() {
    let tree = parse("\"s\" == 1.5").unwrap();
    assert_eq!(
        tree,
        binary(
            BinOp::Eq,
            Expr::StringLiteral { start: 0, end: 3 },
            Expr::FloatLiteral { start: 7, end: 10 },
        )
    );
}
