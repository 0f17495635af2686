//! The grammar, as a function from a token sequence to a formula.
//!
//! Four levels of left-associative binary operators, from the loosest to the
//! tightest: conditional (`->`, `<->`), Or (`+`), Xor (`^`), And (`*`). Below
//! them the prefix `!`, and below that a primary: a literal, a variable or a
//! parenthesised expression. Every function here takes the index at which
//! it starts reading and returns, with the formula, the number of tokens it
//! has read.

use vstd::prelude::*;
use crate::formula::Connective;
use crate::formula::Formula;
use crate::lexer::Lexeme;
use crate::lexer::SpecToken;

verus! {

/// Why a token sequence is no expression.
#[derive(Debug, Clone, Copy, PartialEq, Eq, Structural)]
pub enum ParseErrorKind {
    /// A literal, an identifier or `(` was expected.
    ExpectedOperand,
    /// After `(` and an expression, `)` was expected.
    ExpectedCloseParen,
    /// After a complete expression, the end marker was expected.
    TrailingToken,
}

/// A parsing failure, with the token that was found where another was
/// expected.
pub struct SpecParseError {
    pub kind: ParseErrorKind,
    pub found: SpecToken,
}

/// A formula and the number of tokens it was read from, or a failure.
pub type Parsed = Result<(Formula, nat), SpecParseError>;

/// `parsed`, counted from `by` tokens earlier.
pub open spec fn shifted(parsed: Parsed, by: nat) -> Parsed {
    match parsed {
        Ok((formula, used)) => Ok((formula, by + used)),
        Err(error) => Err(error),
    }
}

/// The number of binary levels; level 0 binds loosest.
pub open spec fn binary_levels() -> nat {
    4
}

/// A token sequence as the lexer hands it over: not empty, and ending with
/// the end marker.
pub open spec fn terminated(tokens: Seq<SpecToken>) -> bool {
    tokens.len() > 0 && tokens.last().kind is EOF
}

/// The token at index `at`. Beyond the sequence there is nothing to read but
/// the end.
pub open spec fn token_at(tokens: Seq<SpecToken>, at: int) -> SpecToken {
    if 0 <= at < tokens.len() {
        tokens[at]
    } else {
        SpecToken { kind: Lexeme::EOF, position: 0 }
    }
}

/// The operator that a token stands for at a binary level, if any.
pub open spec fn binary_operator(level: nat, kind: Lexeme) -> Option<Connective> {
    if level == 0 && kind is Arrow {
        Some(Connective::Implication)
    } else if level == 0 && kind is DoubleArrow {
        Some(Connective::Biconditional)
    } else if level == 1 && kind is Plus {
        Some(Connective::Or)
    } else if level == 2 && kind is Caret {
        Some(Connective::Xor)
    } else if level == 3 && kind is Star {
        Some(Connective::And)
    } else {
        None
    }
}

/// What is left to read from index `at`: the measure by which the grammar
/// functions terminate.
pub open spec fn unread(tokens: Seq<SpecToken>, at: int) -> nat {
    if at < tokens.len() {
        (tokens.len() - at) as nat
    } else {
        0
    }
}

/// The number of binary levels that bind tighter than `level`, itself
/// counted.
pub open spec fn levels_below(level: nat) -> nat {
    if level < binary_levels() {
        (binary_levels() - level) as nat
    } else {
        0
    }
}

/// The number of `!` tokens in a row from index `at`.
pub open spec fn bang_run(tokens: Seq<SpecToken>, at: int) -> nat
    decreases unread(tokens, at),
{
    if 0 <= at < tokens.len() && tokens[at].kind is Bang {
        1 + bang_run(tokens, at + 1)
    } else {
        0
    }
}

/// An expression of the given binary level, read from index `at`: an
/// expression of the next tighter level, then any number of this level's
/// operators, each with an operand of the next tighter level, folded to the
/// left. Below the binary levels stands the prefix level.
pub open spec fn parse_level(tokens: Seq<SpecToken>, at: int, level: nat) -> Parsed
    decreases unread(tokens, at), levels_below(level), 3nat,
{
    if level >= binary_levels() {
        parse_prefix(tokens, at)
    } else {
        match parse_level(tokens, at, level + 1) {
            Err(error) => Err(error),
            Ok((left, used)) => match parse_chain(tokens, at + used, level, left) {
                Err(error) => Err(error),
                Ok((whole, more)) => Ok((whole, used + more)),
            },
        }
    }
}

/// What follows the operand `left` at a binary level, read from index `at`:
/// while an operator of the level is next, it takes the next operand of the
/// tighter level as its right side and what was read so far as its left.
pub open spec fn parse_chain(tokens: Seq<SpecToken>, at: int, level: nat, left: Formula) -> Parsed
    decreases unread(tokens, at), levels_below(level), 2nat,
{
    match binary_operator(level, token_at(tokens, at).kind) {
        None => Ok((left, 0)),
        Some(op) => if level < binary_levels() {
            match parse_level(tokens, at + 1, level + 1) {
                Err(error) => Err(error),
                Ok((right, used)) => match parse_chain(
                    tokens,
                    at + 1 + used,
                    level,
                    Formula::Binary(op, Box::new(left), Box::new(right)),
                ) {
                    Err(error) => Err(error),
                    Ok((whole, more)) => Ok((whole, 1 + used + more)),
                },
            }
        } else {
            Ok((left, 0))
        },
    }
}

/// A primary with any number of `!` before it. An even number of them
/// cancels; an odd number leaves one negation.
pub open spec fn parse_prefix(tokens: Seq<SpecToken>, at: int) -> Parsed
    decreases unread(tokens, at), 0nat, 1nat,
{
    let bangs = bang_run(tokens, at);
    match parse_primary(tokens, at + bangs) {
        Err(error) => Err(error),
        Ok((operand, used)) => if bangs % 2 == 0 {
            Ok((operand, bangs + used))
        } else {
            Ok((Formula::Not(Box::new(operand)), bangs + used))
        },
    }
}

/// A literal, a variable, or `(`, an expression of the loosest level and
/// `)`, which gives a grouping. Any other token here is reported; so is the
/// token found where the `)` should be.
pub open spec fn parse_primary(tokens: Seq<SpecToken>, at: int) -> Parsed
    decreases unread(tokens, at), 0nat, 0nat,
{
    let token = token_at(tokens, at);
    match token.kind {
        Lexeme::True => Ok((Formula::Literal(true), 1)),
        Lexeme::False => Ok((Formula::Literal(false), 1)),
        Lexeme::Identifier(name) => Ok((Formula::Variable(name), 1)),
        Lexeme::OpenParen => match parse_level(tokens, at + 1, 0) {
            Err(error) => Err(error),
            Ok((inner, used)) => {
                let closing = token_at(tokens, at + 1 + used);
                if closing.kind is CloseParen {
                    Ok((Formula::Grouping(Box::new(inner)), used + 2))
                } else {
                    Err(SpecParseError { kind: ParseErrorKind::ExpectedCloseParen, found: closing })
                }
            },
        },
        _ => Err(SpecParseError { kind: ParseErrorKind::ExpectedOperand, found: token }),
    }
}

/// The expression that the tokens from index `at` on stand for: an
/// expression of the loosest level, followed by the end marker. Any other
/// token after the expression is reported.
pub open spec fn parse_from(tokens: Seq<SpecToken>, at: int) -> Result<Formula, SpecParseError> {
    match parse_level(tokens, at, 0) {
        Err(error) => Err(error),
        Ok((formula, used)) => {
            let next = token_at(tokens, at + used);
            if next.kind is EOF {
                Ok(formula)
            } else {
                Err(SpecParseError { kind: ParseErrorKind::TrailingToken, found: next })
            }
        },
    }
}

/// The expression that a whole token sequence stands for.
pub open spec fn parsed(tokens: Seq<SpecToken>) -> Result<Formula, SpecParseError> {
    parse_from(tokens, 0)
}

} // verus!
