//! The expression tree and the recursive-descent parser that builds it from
//! a token sequence.

use vstd::prelude::*;
use crate::formula::Connective;
use crate::formula::Formula;
use crate::grammar::bang_run;
use crate::grammar::parse_chain;
use crate::grammar::parse_from;
use crate::grammar::parse_level;
use crate::grammar::parse_prefix;
use crate::grammar::parse_primary;
use crate::grammar::shifted;
use crate::grammar::token_at;
use crate::grammar::unread;
use crate::grammar::ParseErrorKind;
use crate::grammar::Parsed;
use crate::grammar::SpecParseError;
use crate::lexer::token_views;
use crate::lexer::Lexeme;
use crate::lexer::SpecToken;
use crate::lexer::Token;
use crate::lexer::TokenKind;

verus! {

/// A boolean constant.
#[derive(Debug, Clone, Copy, PartialEq, Eq, Structural)]
pub enum BooleanValue {
    True,
    False,
}

/// A node of the expression tree.
#[derive(Debug, PartialEq, Eq)]
pub enum Expr {
    Value(BooleanValue),
    Variable(String),
    Op(Op),
    Group(Box<Expr>),
}

/// An operator applied to its operands.
#[derive(Debug, PartialEq, Eq)]
pub enum Op {
    Not(Box<Expr>),
    Or(Box<Expr>, Box<Expr>),
    And(Box<Expr>, Box<Expr>),
    Xor(Box<Expr>, Box<Expr>),
    Implication(Box<Expr>, Box<Expr>),
    Biconditional(Box<Expr>, Box<Expr>),
}

impl View for BooleanValue {
    type V = bool;

    open spec fn view(&self) -> bool {
        *self is True
    }
}

impl Expr {
    /// The formula that the tree stands for.
    pub open spec fn formula(self) -> Formula
        decreases self,
    {
        match self {
            Expr::Value(value) => Formula::Literal(value@),
            Expr::Variable(name) => Formula::Variable(name@),
            Expr::Op(Op::Not(operand)) => Formula::Not(Box::new(operand.formula())),
            Expr::Op(Op::Or(left, right)) => Formula::Binary(
                Connective::Or,
                Box::new(left.formula()),
                Box::new(right.formula()),
            ),
            Expr::Op(Op::And(left, right)) => Formula::Binary(
                Connective::And,
                Box::new(left.formula()),
                Box::new(right.formula()),
            ),
            Expr::Op(Op::Xor(left, right)) => Formula::Binary(
                Connective::Xor,
                Box::new(left.formula()),
                Box::new(right.formula()),
            ),
            Expr::Op(Op::Implication(left, right)) => Formula::Binary(
                Connective::Implication,
                Box::new(left.formula()),
                Box::new(right.formula()),
            ),
            Expr::Op(Op::Biconditional(left, right)) => Formula::Binary(
                Connective::Biconditional,
                Box::new(left.formula()),
                Box::new(right.formula()),
            ),
            Expr::Group(inner) => Formula::Grouping(Box::new(inner.formula())),
        }
    }
}

impl Op {
    /// The formula that the operation stands for.
    pub open spec fn formula(self) -> Formula {
        match self {
            Op::Not(operand) => Formula::Not(Box::new(operand.formula())),
            Op::Or(left, right) => Formula::Binary(
                Connective::Or,
                Box::new(left.formula()),
                Box::new(right.formula()),
            ),
            Op::And(left, right) => Formula::Binary(
                Connective::And,
                Box::new(left.formula()),
                Box::new(right.formula()),
            ),
            Op::Xor(left, right) => Formula::Binary(
                Connective::Xor,
                Box::new(left.formula()),
                Box::new(right.formula()),
            ),
            Op::Implication(left, right) => Formula::Binary(
                Connective::Implication,
                Box::new(left.formula()),
                Box::new(right.formula()),
            ),
            Op::Biconditional(left, right) => Formula::Binary(
                Connective::Biconditional,
                Box::new(left.formula()),
                Box::new(right.formula()),
            ),
        }
    }
}

impl View for Expr {
    type V = Formula;

    open spec fn view(&self) -> Formula {
        self.formula()
    }
}

impl View for Op {
    type V = Formula;

    open spec fn view(&self) -> Formula {
        self.formula()
    }
}

impl Clone for Expr {
    fn clone(&self) -> (copy: Expr)
        ensures
            copy == *self,
        decreases self,
    {
        match self {
            Expr::Value(value) => Expr::Value(*value),
            Expr::Variable(name) => Expr::Variable(name.clone()),
            Expr::Op(op) => Expr::Op(op.clone()),
            Expr::Group(inner) => Expr::Group(Box::new((&**inner).clone())),
        }
    }
}

impl Clone for Op {
    fn clone(&self) -> (copy: Op)
        ensures
            copy == *self,
        decreases self,
    {
        match self {
            Op::Not(operand) => Op::Not(Box::new((&**operand).clone())),
            Op::Or(left, right) => Op::Or(
                Box::new((&**left).clone()),
                Box::new((&**right).clone()),
            ),
            Op::And(left, right) => Op::And(
                Box::new((&**left).clone()),
                Box::new((&**right).clone()),
            ),
            Op::Xor(left, right) => Op::Xor(
                Box::new((&**left).clone()),
                Box::new((&**right).clone()),
            ),
            Op::Implication(left, right) => Op::Implication(
                Box::new((&**left).clone()),
                Box::new((&**right).clone()),
            ),
            Op::Biconditional(left, right) => Op::Biconditional(
                Box::new((&**left).clone()),
                Box::new((&**right).clone()),
            ),
        }
    }
}

/// A parsing failure: what was expected, and the token that was found
/// instead, with its position.
#[derive(Debug, PartialEq, Eq)]
pub struct ParseError {
    pub kind: ParseErrorKind,
    pub found: Token,
}

impl View for ParseError {
    type V = SpecParseError;

    open spec fn view(&self) -> SpecParseError {
        SpecParseError { kind: self.kind, found: self.found@ }
    }
}

/// A parser over one token sequence.
pub struct Parser {
    tokens: Vec<Token>,
    current: usize,
}

/// Whether a parsing step that moved the cursor by `moved` tokens and
/// returned `result` did what the grammar says.
pub open spec fn agrees(result: Result<Expr, ParseError>, moved: int, expected: Parsed) -> bool {
    match result {
        Ok(expr) => moved >= 0 && expected == Ok::<(Formula, nat), SpecParseError>(
            (expr@, moved as nat),
        ),
        Err(error) => expected == Err::<(Formula, nat), SpecParseError>(error@),
    }
}

impl Parser {
    /// The tokens that the parser reads.
    pub closed spec fn tokens(&self) -> Seq<SpecToken> {
        token_views(self.tokens@)
    }

    /// The index of the next token to read.
    pub closed spec fn cursor(&self) -> int {
        self.current as int
    }

    /// A parser at the start of `tokens`.
    pub fn new(tokens: Vec<Token>) -> (parser: Parser)
        ensures
            parser.tokens() == token_views(tokens@),
            parser.cursor() == 0,
    {
        Parser { tokens, current: 0 }
    }

    /// The token at the cursor, if there is one.
    fn peek(&self) -> (token: Option<&Token>)
        ensures
            match token {
                Some(found) => self.cursor() < self.tokens().len() && found@
                    == self.tokens()[self.cursor()],
                None => self.cursor() >= self.tokens().len(),
            },
    {
        if self.current < self.tokens.len() {
            Some(&self.tokens[self.current])
        } else {
            None
        }
    }

    /// The token before the cursor, if there is one.
    fn previous(&self) -> (token: Option<&Token>)
        requires
            self.cursor() > 0,
        ensures
            match token {
                Some(found) => self.cursor() <= self.tokens().len() && found@ == self.tokens()[
                    self.cursor() - 1],
                None => self.cursor() > self.tokens().len(),
            },
    {
        if self.current - 1 < self.tokens.len() {
            Some(&self.tokens[self.current - 1])
        } else {
            None
        }
    }

    /// Moves past the token at the cursor and returns it; at the end, does
    /// nothing and returns nothing.
    fn advance(&mut self) -> (token: Option<&Token>)
        ensures
            final(self).tokens() == old(self).tokens(),
            match token {
                Some(found) => {
                    &&& old(self).cursor() < old(self).tokens().len()
                    &&& found@ == old(self).tokens()[old(self).cursor()]
                    &&& final(self).cursor() == old(self).cursor() + 1
                },
                None => {
                    &&& old(self).cursor() >= old(self).tokens().len()
                    &&& final(self).cursor() == old(self).cursor()
                },
            },
    {
        if self.current < self.tokens.len() {
            self.current += 1;
            self.previous()
        } else {
            None
        }
    }

    /// Whether the token at the cursor is of the given kind.
    fn check(&self, token_kind: &TokenKind) -> (same: bool)
        ensures
            same == (self.cursor() < self.tokens().len() && self.tokens()[self.cursor()].kind
                == token_kind@),
    {
        match self.peek() {
            Some(token) => *token_kind == token.kind,
            None => false,
        }
    }

    /// If the token at the cursor is of one of the given kinds, moves past it
    /// and returns its kind.
    fn expect_tokens(&mut self, tokens: &[TokenKind]) -> (found: Option<TokenKind>)
        ensures
            final(self).tokens() == old(self).tokens(),
            found is Some <==> old(self).cursor() < old(self).tokens().len() && offers(
                tokens@,
                old(self).tokens()[old(self).cursor()].kind,
            ),
            match found {
                Some(kind) => {
                    &&& kind@ == old(self).tokens()[old(self).cursor()].kind
                    &&& final(self).cursor() == old(self).cursor() + 1
                },
                None => final(self).cursor() == old(self).cursor(),
            },
    {
        let mut index: usize = 0;
        while index < tokens.len()
            invariant
                *self == *old(self),
                index <= tokens@.len(),
                forall|i: int|
                    0 <= i < index && self.cursor() < self.tokens().len() ==> (
                    #[trigger] tokens@[i])@ != self.tokens()[self.cursor()].kind,
            decreases tokens.len() - index,
        {
            if self.check(&tokens[index]) {
                return match self.advance() {
                    Some(token) => Some(token.kind.clone()),
                    None => None,
                };
            }
            index += 1;
        }
        None
    }

    /// An expression of the loosest level: operands of the Or level joined
    /// by `->` and `<->`, from left to right.
    fn conditional(&mut self) -> (result: Result<Expr, ParseError>)
        ensures
            final(self).tokens() == old(self).tokens(),
            agrees(
                result,
                final(self).cursor() - old(self).cursor(),
                parse_level(old(self).tokens(), old(self).cursor(), 0),
            ),
        decreases unread(old(self).tokens(), old(self).cursor()), 4nat, 1nat,
    {
        let ghost start = self.cursor();
        let mut left = self.or()?;
        loop
            invariant
                self.tokens() == old(self).tokens(),
                start == old(self).cursor(),
                start <= self.cursor(),
                parse_level(self.tokens(), start, 0) == shifted(
                    parse_chain(self.tokens(), self.cursor(), 0, left@),
                    (self.cursor() - start) as nat,
                ),
                unread(self.tokens(), self.cursor()) <= unread(self.tokens(), start),
            ensures
                self.tokens() == old(self).tokens(),
                start <= self.cursor(),
                parse_level(self.tokens(), start, 0) == Ok::<(Formula, nat), SpecParseError>(
                    (left@, (self.cursor() - start) as nat),
                ),
            decreases unread(self.tokens(), self.cursor()),
        {
            let arrows = [TokenKind::Arrow, TokenKind::DoubleArrow];
            proof {
                lemma_offers_two(arrows@, TokenKind::Arrow, TokenKind::DoubleArrow);
            }
            match self.expect_tokens(&arrows) {
                None => {
                    break ;
                },
                Some(token) => {
                    let right = self.or()?;
                    match token {
                        TokenKind::Arrow => {
                            left = Expr::Op(Op::Implication(Box::new(left), Box::new(right)));
                        },
                        _ => {
                            left = Expr::Op(Op::Biconditional(Box::new(left), Box::new(right)));
                        },
                    }
                },
            }
        }
        Ok(left)
    }

    /// An expression of the Or level: operands of the Xor level joined by `+`.
    fn or(&mut self) -> (result: Result<Expr, ParseError>)
        ensures
            final(self).tokens() == old(self).tokens(),
            agrees(
                result,
                final(self).cursor() - old(self).cursor(),
                parse_level(old(self).tokens(), old(self).cursor(), 1),
            ),
        decreases unread(old(self).tokens(), old(self).cursor()), 3nat, 1nat,
    {
        let ghost start = self.cursor();
        let mut left = self.xor()?;
        loop
            invariant
                self.tokens() == old(self).tokens(),
                start == old(self).cursor(),
                start <= self.cursor(),
                parse_level(self.tokens(), start, 1) == shifted(
                    parse_chain(self.tokens(), self.cursor(), 1, left@),
                    (self.cursor() - start) as nat,
                ),
                unread(self.tokens(), self.cursor()) <= unread(self.tokens(), start),
            ensures
                self.tokens() == old(self).tokens(),
                start <= self.cursor(),
                parse_level(self.tokens(), start, 1) == Ok::<(Formula, nat), SpecParseError>(
                    (left@, (self.cursor() - start) as nat),
                ),
            decreases unread(self.tokens(), self.cursor()),
        {
            let operators = [TokenKind::Plus];
            proof {
                lemma_offers_one(operators@, TokenKind::Plus);
            }
            match self.expect_tokens(&operators) {
                None => {
                    break ;
                },
                Some(_) => {
                    let right = self.xor()?;
                    left = Expr::Op(Op::Or(Box::new(left), Box::new(right)));
                },
            }
        }
        Ok(left)
    }

    /// An expression of the Xor level: operands of the And level joined by `^`.
    fn xor(&mut self) -> (result: Result<Expr, ParseError>)
        ensures
            final(self).tokens() == old(self).tokens(),
            agrees(
                result,
                final(self).cursor() - old(self).cursor(),
                parse_level(old(self).tokens(), old(self).cursor(), 2),
            ),
        decreases unread(old(self).tokens(), old(self).cursor()), 2nat, 1nat,
    {
        let ghost start = self.cursor();
        let mut left = self.and()?;
        loop
            invariant
                self.tokens() == old(self).tokens(),
                start == old(self).cursor(),
                start <= self.cursor(),
                parse_level(self.tokens(), start, 2) == shifted(
                    parse_chain(self.tokens(), self.cursor(), 2, left@),
                    (self.cursor() - start) as nat,
                ),
                unread(self.tokens(), self.cursor()) <= unread(self.tokens(), start),
            ensures
                self.tokens() == old(self).tokens(),
                start <= self.cursor(),
                parse_level(self.tokens(), start, 2) == Ok::<(Formula, nat), SpecParseError>(
                    (left@, (self.cursor() - start) as nat),
                ),
            decreases unread(self.tokens(), self.cursor()),
        {
            let operators = [TokenKind::Caret];
            proof {
                lemma_offers_one(operators@, TokenKind::Caret);
            }
            match self.expect_tokens(&operators) {
                None => {
                    break ;
                },
                Some(_) => {
                    let right = self.and()?;
                    left = Expr::Op(Op::Xor(Box::new(left), Box::new(right)));
                },
            }
        }
        Ok(left)
    }

    /// An expression of the And level: prefix expressions joined by `*`.
    fn and(&mut self) -> (result: Result<Expr, ParseError>)
        ensures
            final(self).tokens() == old(self).tokens(),
            agrees(
                result,
                final(self).cursor() - old(self).cursor(),
                parse_level(old(self).tokens(), old(self).cursor(), 3),
            ),
        decreases unread(old(self).tokens(), old(self).cursor()), 1nat, 1nat,
    {
        let ghost start = self.cursor();
        proof {
            lemma_tightest_level(self.tokens(), start);
        }
        let mut left = self.not()?;
        loop
            invariant
                self.tokens() == old(self).tokens(),
                start == old(self).cursor(),
                start <= self.cursor(),
                parse_level(self.tokens(), start, 3) == shifted(
                    parse_chain(self.tokens(), self.cursor(), 3, left@),
                    (self.cursor() - start) as nat,
                ),
                unread(self.tokens(), self.cursor()) <= unread(self.tokens(), start),
            ensures
                self.tokens() == old(self).tokens(),
                start <= self.cursor(),
                parse_level(self.tokens(), start, 3) == Ok::<(Formula, nat), SpecParseError>(
                    (left@, (self.cursor() - start) as nat),
                ),
            decreases unread(self.tokens(), self.cursor()),
        {
            let operators = [TokenKind::Star];
            proof {
                lemma_offers_one(operators@, TokenKind::Star);
            }
            match self.expect_tokens(&operators) {
                None => {
                    break ;
                },
                Some(_) => {
                    proof {
                        lemma_tightest_level(self.tokens(), self.cursor());
                    }
                    let right = self.not()?;
                    left = Expr::Op(Op::And(Box::new(left), Box::new(right)));
                },
            }
        }
        Ok(left)
    }

    /// A primary with any number of `!` before it: an even number cancels,
    /// an odd number leaves one negation.
    fn not(&mut self) -> (result: Result<Expr, ParseError>)
        ensures
            final(self).tokens() == old(self).tokens(),
            agrees(
                result,
                final(self).cursor() - old(self).cursor(),
                parse_prefix(old(self).tokens(), old(self).cursor()),
            ),
        decreases unread(old(self).tokens(), old(self).cursor()), 0nat, 1nat,
    {
        let ghost start = self.cursor();
        let mut odd = false;
        loop
            invariant
                self.tokens() == old(self).tokens(),
                start == old(self).cursor(),
                start <= self.cursor(),
                bang_run(self.tokens(), start) == (self.cursor() - start) + bang_run(
                    self.tokens(),
                    self.cursor(),
                ),
                odd == ((self.cursor() - start) % 2 == 1),
            ensures
                self.tokens() == old(self).tokens(),
                start <= self.cursor(),
                bang_run(self.tokens(), start) == self.cursor() - start,
                odd == ((self.cursor() - start) % 2 == 1),
            decreases unread(self.tokens(), self.cursor()),
        {
            let bang = [TokenKind::Bang];
            proof {
                lemma_offers_one(bang@, TokenKind::Bang);
            }
            match self.expect_tokens(&bang) {
                None => {
                    break ;
                },
                Some(_) => {
                    odd = !odd;
                },
            }
        }
        let right = self.primary()?;
        if odd {
            Ok(Expr::Op(Op::Not(Box::new(right))))
        } else {
            Ok(right)
        }
    }

    /// A literal, a variable or a parenthesised expression.
    fn primary(&mut self) -> (result: Result<Expr, ParseError>)
        ensures
            final(self).tokens() == old(self).tokens(),
            agrees(
                result,
                final(self).cursor() - old(self).cursor(),
                parse_primary(old(self).tokens(), old(self).cursor()),
            ),
        decreases unread(old(self).tokens(), old(self).cursor()), 0nat, 0nat,
    {
        let token = match self.advance() {
            Some(token) => token.clone(),
            None => Token::new(TokenKind::EOF, 0),
        };
        match token.kind {
            TokenKind::True => Ok(Expr::Value(BooleanValue::True)),
            TokenKind::False => Ok(Expr::Value(BooleanValue::False)),
            TokenKind::Identifier(val) => Ok(Expr::Variable(val)),
            TokenKind::OpenParen => {
                let inner = self.conditional()?;
                if self.check(&TokenKind::CloseParen) {
                    self.advance();
                    Ok(Expr::Group(Box::new(inner)))
                } else {
                    Err(ParseError { kind: ParseErrorKind::ExpectedCloseParen, found: self.here() })
                }
            },
            _ => Err(ParseError { kind: ParseErrorKind::ExpectedOperand, found: token }),
        }
    }

    /// A copy of the token at the cursor; at the end, an end marker.
    fn here(&self) -> (token: Token)
        ensures
            token@ == token_at(self.tokens(), self.cursor()),
    {
        match self.peek() {
            Some(token) => token.clone(),
            None => Token::new(TokenKind::EOF, 0),
        }
    }

    /// Reads one expression from the cursor on. The expression must be
    /// followed by the end marker; any other token there is reported, as is
    /// a token that cannot stand where it is found. A sequence that stops
    /// without an end marker is read as if the marker followed it, at
    /// position 0.
    pub fn parse(self) -> (result: Result<Expr, ParseError>)
        ensures
            match result {
                Ok(expr) => parse_from(self.tokens(), self.cursor()) == Ok::<
                    Formula,
                    SpecParseError,
                >(expr@),
                Err(error) => parse_from(self.tokens(), self.cursor()) == Err::<
                    Formula,
                    SpecParseError,
                >(error@),
            },
    {
        let mut parser = self;
        let expr = parser.conditional()?;
        let next = parser.here();
        match next.kind {
            TokenKind::EOF => Ok(expr),
            _ => Err(ParseError { kind: ParseErrorKind::TrailingToken, found: next }),
        }
    }
}

/// Below the four binary levels stands the prefix level.
proof fn lemma_tightest_level(tokens: Seq<SpecToken>, at: int)
    ensures
        parse_level(tokens, at, 4) == parse_prefix(tokens, at),
{
}

/// Whether `kind` is among `kinds`.
pub open spec fn offers(kinds: Seq<TokenKind>, kind: Lexeme) -> bool {
    exists|i: int| 0 <= i < kinds.len() && (#[trigger] kinds[i])@ == kind
}

/// Two kinds offer each of the two, and nothing else.
proof fn lemma_offers_two(kinds: Seq<TokenKind>, first: TokenKind, second: TokenKind)
    requires
        kinds.len() == 2,
        kinds[0] == first,
        kinds[1] == second,
    ensures
        forall|kind: Lexeme| #[trigger] offers(kinds, kind) <==> kind == first@ || kind == second@,
{
    assert forall|kind: Lexeme| kind == first@ || kind == second@ implies #[trigger] offers(
        kinds,
        kind,
    ) by {
        if kind == first@ {
            assert(kinds[0]@ == kind);
        } else {
            assert(kinds[1]@ == kind);
        }
    }
}

/// One kind offers itself, and nothing else.
proof fn lemma_offers_one(kinds: Seq<TokenKind>, only: TokenKind)
    requires
        kinds.len() == 1,
        kinds[0] == only,
    ensures
        forall|kind: Lexeme| #[trigger] offers(kinds, kind) <==> kind == only@,
{
    assert(kinds[0]@ == only@);
}

} // verus!
