use boolalg::grammar::ParseErrorKind;
use boolalg::lexer::{Lexer, Token, TokenKind};
use boolalg::parser::{BooleanValue, Expr, Op, ParseError, Parser};

fn parse(source: &str) -> Result<Expr, ParseError> {
    Parser::new(Lexer::new(source).lex().unwrap()).parse()
}

fn var(name: &str) -> Expr {
    Expr::Variable(name.to_string())
}

fn lit(value: bool) -> Expr {
    Expr::Value(if value { BooleanValue::True } else { BooleanValue::False })
}

fn not(e: Expr) -> Expr {
    Expr::Op(Op::Not(Box::new(e)))
}

fn or(l: Expr, r: Expr) -> Expr {
    Expr::Op(Op::Or(Box::new(l), Box::new(r)))
}

fn and(l: Expr, r: Expr) -> Expr {
    Expr::Op(Op::And(Box::new(l), Box::new(r)))
}

fn xor(l: Expr, r: Expr) -> Expr {
    Expr::Op(Op::Xor(Box::new(l), Box::new(r)))
}

fn implies(l: Expr, r: Expr) -> Expr {
    Expr::Op(Op::Implication(Box::new(l), Box::new(r)))
}

fn iff(l: Expr, r: Expr) -> Expr {
    Expr::Op(Op::Biconditional(Box::new(l), Box::new(r)))
}

fn group(e: Expr) -> Expr {
    Expr::Group(Box::new(e))
}

fn token(kind: TokenKind, position: usize) -> Token {
    Token { kind, position }
}

#[test]
fn a_literal_or_a_variable_alone() {
    assert_eq!(parse("t"), Ok(lit(true)));
    assert_eq!(parse("false"), Ok(lit(false)));
    assert_eq!(parse("abc"), Ok(var("abc")));
}

#[test]
fn and_binds_tighter_than_or() {
    assert_eq!(parse("a + b * c"), Ok(or(var("a"), and(var("b"), var("c")))));
    assert_eq!(parse("a * b + c"), Ok(or(and(var("a"), var("b")), var("c"))));
}

#[test]
fn xor_stands_between_or_and_and() {
    assert_eq!(parse("a ^ b * c"), Ok(xor(var("a"), and(var("b"), var("c")))));
    assert_eq!(parse("a + b ^ c"), Ok(or(var("a"), xor(var("b"), var("c")))));
    assert_eq!(
        parse("a * b ^ c + d"),
        Ok(or(xor(and(var("a"), var("b")), var("c")), var("d")))
    );
}

#[test]
fn conditional_binds_loosest() {
    assert_eq!(
        parse("a + b -> c * d"),
        Ok(implies(or(var("a"), var("b")), and(var("c"), var("d"))))
    );
    assert_eq!(parse("a <-> b ^ c"), Ok(iff(var("a"), xor(var("b"), var("c")))));
}

#[test]
fn binary_operators_associate_to_the_left() {
    assert_eq!(parse("a + b + c"), Ok(or(or(var("a"), var("b")), var("c"))));
    assert_eq!(parse("a * b * c"), Ok(and(and(var("a"), var("b")), var("c"))));
    assert_eq!(parse("a ^ b ^ c"), Ok(xor(xor(var("a"), var("b")), var("c"))));
    assert_eq!(parse("a -> b -> c"), Ok(implies(implies(var("a"), var("b")), var("c"))));
}

#[test]
fn the_two_conditionals_share_a_level() {
    assert_eq!(parse("a -> b <-> c"), Ok(iff(implies(var("a"), var("b")), var("c"))));
    assert_eq!(parse("a <-> b -> c"), Ok(implies(iff(var("a"), var("b")), var("c"))));
}

#[test]
fn not_binds_tighter_than_and() {
    assert_eq!(parse("!a * b"), Ok(and(not(var("a")), var("b"))));
    assert_eq!(parse("a * !b"), Ok(and(var("a"), not(var("b")))));
}

#[test]
fn a_run_of_bangs_collapses() {
    assert_eq!(parse("!a"), Ok(not(var("a"))));
    assert_eq!(parse("!!a"), Ok(var("a")));
    assert_eq!(parse("!!!a"), Ok(not(var("a"))));
    assert_eq!(parse("! ! ! !t"), Ok(lit(true)));
}

#[test]
fn parentheses_give_a_group() {
    assert_eq!(parse("(a)"), Ok(group(var("a"))));
    assert_eq!(parse("((a))"), Ok(group(group(var("a")))));
    assert_eq!(parse("(a + b) * c"), Ok(and(group(or(var("a"), var("b"))), var("c"))));
    assert_eq!(parse("!(a -> b)"), Ok(not(group(implies(var("a"), var("b"))))));
    assert_eq!(parse("!!(a)"), Ok(group(var("a"))));
}

#[test]
fn a_longer_expression() {
    assert_eq!(
        parse("!var * t ^ b + c ^ (x ^ y -> var2 <-> _3) ^ f * t"),
        Ok(or(
            xor(and(not(var("var")), lit(true)), var("b")),
            xor(
                xor(
                    var("c"),
                    group(iff(implies(xor(var("x"), var("y")), var("var2")), var("_3")))
                ),
                and(lit(false), lit(true))
            )
        ))
    );
}

#[test]
fn a_trailing_operator_is_reported() {
    assert_eq!(
        parse("a + "),
        Err(ParseError { kind: ParseErrorKind::ExpectedOperand, found: token(TokenKind::EOF, 4) })
    );
}

#[test]
fn a_missing_operand_is_reported_with_the_token_found() {
    assert_eq!(
        parse("a + * b"),
        Err(ParseError { kind: ParseErrorKind::ExpectedOperand, found: token(TokenKind::Star, 4) })
    );
    assert_eq!(
        parse(""),
        Err(ParseError { kind: ParseErrorKind::ExpectedOperand, found: token(TokenKind::EOF, 0) })
    );
    assert_eq!(
        parse("()"),
        Err(ParseError {
            kind: ParseErrorKind::ExpectedOperand,
            found: token(TokenKind::CloseParen, 1)
        })
    );
    assert_eq!(
        parse("!"),
        Err(ParseError { kind: ParseErrorKind::ExpectedOperand, found: token(TokenKind::EOF, 1) })
    );
    assert_eq!(
        parse("a -> -> b"),
        Err(ParseError { kind: ParseErrorKind::ExpectedOperand, found: token(TokenKind::Arrow, 6) })
    );
}

#[test]
fn a_missing_closing_parenthesis_is_reported() {
    assert_eq!(
        parse("(a + b"),
        Err(ParseError {
            kind: ParseErrorKind::ExpectedCloseParen,
            found: token(TokenKind::EOF, 6)
        })
    );
    assert_eq!(
        parse("(a b)"),
        Err(ParseError {
            kind: ParseErrorKind::ExpectedCloseParen,
            found: token(TokenKind::Identifier("b".to_string()), 3)
        })
    );
    assert_eq!(
        parse("((a)"),
        Err(ParseError {
            kind: ParseErrorKind::ExpectedCloseParen,
            found: token(TokenKind::EOF, 4)
        })
    );
}

#[test]
fn a_token_after_the_expression_is_reported() {
    assert_eq!(
        parse("a + b )"),
        Err(ParseError {
            kind: ParseErrorKind::TrailingToken,
            found: token(TokenKind::CloseParen, 6)
        })
    );
    assert_eq!(
        parse("a b"),
        Err(ParseError {
            kind: ParseErrorKind::TrailingToken,
            found: token(TokenKind::Identifier("b".to_string()), 2)
        })
    );
    assert_eq!(
        parse("a !b"),
        Err(ParseError { kind: ParseErrorKind::TrailingToken, found: token(TokenKind::Bang, 2) })
    );
    assert_eq!(
        parse("(a) ("),
        Err(ParseError {
            kind: ParseErrorKind::TrailingToken,
            found: token(TokenKind::OpenParen, 4)
        })
    );
}

#[test]
fn tokens_given_by_hand() {
    let tokens = vec![
        token(TokenKind::Identifier("p".to_string()), 0),
        token(TokenKind::Star, 1),
        token(TokenKind::True, 2),
        token(TokenKind::EOF, 3),
    ];
    assert_eq!(Parser::new(tokens).parse(), Ok(and(var("p"), lit(true))));
}

#[test]
fn what_follows_the_first_end_marker_is_not_read() {
    let tokens = vec![
        token(TokenKind::Identifier("p".to_string()), 0),
        token(TokenKind::EOF, 1),
        token(TokenKind::Plus, 2),
        token(TokenKind::EOF, 3),
    ];
    assert_eq!(Parser::new(tokens).parse(), Ok(var("p")));
}

#[test]
fn beyond_the_tokens_there_is_only_the_end() {
    assert_eq!(
        Parser::new(vec![]).parse(),
        Err(ParseError { kind: ParseErrorKind::ExpectedOperand, found: token(TokenKind::EOF, 0) })
    );
    assert_eq!(
        Parser::new(vec![token(TokenKind::Identifier("p".to_string()), 0)]).parse(),
        Ok(var("p"))
    );
    assert_eq!(
        Parser::new(vec![token(TokenKind::OpenParen, 0), token(TokenKind::True, 1)]).parse(),
        Err(ParseError {
            kind: ParseErrorKind::ExpectedCloseParen,
            found: token(TokenKind::EOF, 0)
        })
    );
    assert_eq!(
        Parser::new(vec![token(TokenKind::OpenParen, 0)]).parse(),
        Err(ParseError { kind: ParseErrorKind::ExpectedOperand, found: token(TokenKind::EOF, 0) })
    );
}
