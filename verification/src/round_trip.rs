//! Printing and reading back.
//!
//! The text of a tree that the parser has built lexes and parses to the same
//! tree. The proof goes in two steps. Token by token: the tokens of a tree
//! of the parser's shape parse to that tree (`lemma_parse_shaped`), and
//! what the parser returns has that shape (`lemma_parsed_is_shaped`).
//! Character by character: the text of a tree lexes to the tokens of the
//! tree (`lemma_scan_text`).

use vstd::prelude::*;
use crate::chars::continues_word;
use crate::chars::starts_word;
use crate::formula::Connective;
use crate::formula::Formula;
use crate::grammar::bang_run;
use crate::grammar::binary_operator;
use crate::grammar::levels_below;
use crate::grammar::parse_chain;
use crate::grammar::parse_from;
use crate::grammar::parse_level;
use crate::grammar::parse_prefix;
use crate::grammar::parse_primary;
use crate::grammar::parsed;
use crate::grammar::shifted;
use crate::grammar::terminated;
use crate::grammar::token_at;
use crate::grammar::unread;
use crate::grammar::SpecParseError;
use crate::lexer::after;
use crate::lexer::lemma_after_after;
use crate::lexer::lemma_word_kind;
use crate::lexer::lexed;
use crate::lexer::scan;
use crate::lexer::scan_at;
use crate::lexer::word_kind;
use crate::lexer::word_run;
use crate::lexer::Scanned;
use crate::lexer::SpecLexError;
use crate::lexer::Lexeme;
use crate::lexer::SpecToken;

verus! {

impl Connective {
    /// The binary level at which the operator is read.
    pub open spec fn level(self) -> nat {
        match self {
            Connective::Implication => 0,
            Connective::Biconditional => 0,
            Connective::Or => 1,
            Connective::Xor => 2,
            Connective::And => 3,
        }
    }

    /// The token that stands for the operator.
    pub open spec fn lexeme(self) -> Lexeme {
        match self {
            Connective::Implication => Lexeme::Arrow,
            Connective::Biconditional => Lexeme::DoubleArrow,
            Connective::Or => Lexeme::Plus,
            Connective::Xor => Lexeme::Caret,
            Connective::And => Lexeme::Star,
        }
    }
}

/// The binary level of the operator that a token stands for, if it stands
/// for one.
pub open spec fn operator_level(kind: Lexeme) -> Option<nat> {
    match kind {
        Lexeme::Arrow => Some(0nat),
        Lexeme::DoubleArrow => Some(0nat),
        Lexeme::Plus => Some(1nat),
        Lexeme::Caret => Some(2nat),
        Lexeme::Star => Some(3nat),
        _ => None,
    }
}

impl Formula {
    /// Whether the tree is one that the parser builds at the given level:
    /// at a binary level, an operation of that level with a left operand of
    /// the same level and a right operand of the next tighter one, or a tree
    /// of the next tighter level; below the binary levels, a primary or the
    /// negation of a primary, where a primary is a literal, a variable or a
    /// grouping of a tree of the loosest level.
    pub open spec fn shaped(self, level: nat) -> bool
        decreases self, levels_below(level),
    {
        if level >= 4 {
            match self {
                Formula::Literal(_) => true,
                Formula::Variable(_) => true,
                Formula::Grouping(inner) => inner.shaped(0),
                Formula::Not(operand) => match *operand {
                    Formula::Literal(_) => true,
                    Formula::Variable(_) => true,
                    Formula::Grouping(inner) => inner.shaped(0),
                    _ => false,
                },
                Formula::Binary(_, _, _) => false,
            }
        } else {
            ||| self.shaped(level + 1)
            ||| self matches Formula::Binary(op, left, right) && op.level() == level && left.shaped(
                level,
            ) && right.shaped(level + 1)
        }
    }

    /// The kinds of the tokens that the tree is written with, in order.
    pub open spec fn lexemes(self) -> Seq<Lexeme>
        decreases self,
    {
        match self {
            Formula::Literal(value) => if value {
                seq![Lexeme::True]
            } else {
                seq![Lexeme::False]
            },
            Formula::Variable(name) => seq![Lexeme::Identifier(name)],
            Formula::Not(operand) => seq![Lexeme::Bang] + operand.lexemes(),
            Formula::Binary(op, left, right) => left.lexemes() + seq![op.lexeme()]
                + right.lexemes(),
            Formula::Grouping(inner) => seq![Lexeme::OpenParen] + inner.lexemes()
                + seq![Lexeme::CloseParen],
        }
    }
}

/// Whether the tokens from index `at` on are of the given kinds.
pub open spec fn kinds_at(tokens: Seq<SpecToken>, at: int, kinds: Seq<Lexeme>) -> bool {
    &&& 0 <= at
    &&& at + kinds.len() <= tokens.len()
    &&& forall|i: int| 0 <= i < kinds.len() ==> (#[trigger] tokens[at + i]).kind == kinds[i]
}

/// Whether the token at index `at` can follow an expression of the given
/// level: it is no operator of a tighter level.
pub open spec fn closes(tokens: Seq<SpecToken>, at: int, level: nat) -> bool {
    match operator_level(token_at(tokens, at).kind) {
        Some(tighter) => tighter <= level,
        None => true,
    }
}

/// A tree is written with at least one token.
proof fn lemma_lexemes_nonempty(formula: Formula)
    ensures
        formula.lexemes().len() >= 1,
    decreases formula,
{
    match formula {
        Formula::Literal(_) => {},
        Formula::Variable(_) => {},
        Formula::Not(operand) => {
            lemma_lexemes_nonempty(*operand);
        },
        Formula::Binary(_, left, right) => {
            lemma_lexemes_nonempty(*left);
            lemma_lexemes_nonempty(*right);
        },
        Formula::Grouping(inner) => {
            lemma_lexemes_nonempty(*inner);
        },
    }
}

/// Tokens of the kinds `front + back` are tokens of the kinds `front`
/// followed by tokens of the kinds `back`.
proof fn lemma_kinds_split(
    tokens: Seq<SpecToken>,
    at: int,
    front: Seq<Lexeme>,
    back: Seq<Lexeme>,
)
    requires
        kinds_at(tokens, at, front + back),
    ensures
        kinds_at(tokens, at, front),
        kinds_at(tokens, at + front.len(), back),
{
    let whole = front + back;
    assert forall|i: int| 0 <= i < front.len() implies (#[trigger] tokens[at + i]).kind
        == front[i] by {
        assert(whole[i] == front[i]);
    }
    assert forall|i: int| 0 <= i < back.len() implies (#[trigger] tokens[at + front.len()
        + i]).kind == back[i] by {
        assert(whole[front.len() + i] == back[i]);
        assert(tokens[at + (front.len() + i)].kind == whole[front.len() + i]);
    }
}

/// A token stands for an operator at a level exactly when that level is its
/// operator level, and then for the operator whose token it is.
proof fn lemma_operator_levels(level: nat, kind: Lexeme)
    ensures
        binary_operator(level, kind) is Some <==> operator_level(kind) == Some(level),
        forall|op: Connective| #[trigger] binary_operator(op.level(), op.lexeme()) == Some(op),
{
    assert forall|op: Connective| #[trigger]
        binary_operator(op.level(), op.lexeme()) == Some(op) by {
        match op {
            Connective::Implication => {},
            Connective::Biconditional => {},
            Connective::Or => {},
            Connective::Xor => {},
            Connective::And => {},
        }
    }
}

/// Whether the tree is a primary: a literal, a variable, or a grouping of a
/// tree of the loosest level.
pub open spec fn primary(formula: Formula) -> bool {
    match formula {
        Formula::Literal(_) => true,
        Formula::Variable(_) => true,
        Formula::Grouping(inner) => inner.shaped(0),
        _ => false,
    }
}

/// The tokens of a primary parse to it, and the first of them is no `!`.
proof fn lemma_parse_primary(tokens: Seq<SpecToken>, at: int, formula: Formula)
    requires
        primary(formula),
        kinds_at(tokens, at, formula.lexemes()),
    ensures
        parse_primary(tokens, at) == Ok::<(Formula, nat), SpecParseError>(
            (formula, formula.lexemes().len()),
        ),
        !(tokens[at].kind is Bang),
        bang_run(tokens, at) == 0,
    decreases formula, 0nat, 0nat,
{
    lemma_lexemes_nonempty(formula);
    assert(tokens[at + 0].kind == formula.lexemes()[0]);
    match formula {
        Formula::Grouping(inner) => {
            let n = inner.lexemes().len();
            lemma_kinds_split(
                tokens,
                at,
                seq![Lexeme::OpenParen] + inner.lexemes(),
                seq![Lexeme::CloseParen],
            );
            lemma_kinds_split(tokens, at, seq![Lexeme::OpenParen], inner.lexemes());
            assert(tokens[at + 1 + n + 0].kind == seq![Lexeme::CloseParen][0]);
            lemma_parse_shaped(tokens, at + 1, *inner, 0);
            assert(parse_chain(tokens, at + 1 + n, 0, *inner) == Ok::<
                (Formula, nat),
                SpecParseError,
            >((*inner, 0)));
        },
        _ => {},
    }
}

/// The tokens of a tree of the parser's shape parse to that tree, whatever
/// follows them; and if an operator of the tree's level follows, the chain
/// goes on with the tree as its left operand.
pub proof fn lemma_parse_shaped(tokens: Seq<SpecToken>, at: int, formula: Formula, level: nat)
    requires
        formula.shaped(level),
        kinds_at(tokens, at, formula.lexemes()),
        closes(tokens, at + formula.lexemes().len(), level),
    ensures
        parse_level(tokens, at, level) == shifted(
            parse_chain(tokens, at + formula.lexemes().len(), level, formula),
            formula.lexemes().len(),
        ),
    decreases formula, levels_below(level), 1nat,
{
    let n = formula.lexemes().len();
    let after = token_at(tokens, at + n).kind;
    lemma_lexemes_nonempty(formula);
    lemma_operator_levels(level, after);
    lemma_operator_levels(level + 1, after);
    if level >= 4 {
        assert(parse_level(tokens, at, level) == parse_prefix(tokens, at));
        match formula {
            Formula::Not(operand) => {
                lemma_kinds_split(tokens, at, seq![Lexeme::Bang], operand.lexemes());
                assert(tokens[at + 0].kind == seq![Lexeme::Bang][0]);
                lemma_parse_primary(tokens, at + 1, *operand);
                assert(bang_run(tokens, at) == 1);
            },
            _ => {
                lemma_parse_primary(tokens, at, formula);
            },
        }
    } else if formula.shaped(level + 1) {
        lemma_parse_shaped(tokens, at, formula, level + 1);
        assert(parse_chain(tokens, at + n, level + 1, formula) == Ok::<
            (Formula, nat),
            SpecParseError,
        >((formula, 0)));
    } else {
        match formula {
            Formula::Binary(op, left, right) => {
                let nl = left.lexemes().len();
                let nr = right.lexemes().len();
                lemma_kinds_split(
                    tokens,
                    at,
                    left.lexemes() + seq![op.lexeme()],
                    right.lexemes(),
                );
                lemma_kinds_split(tokens, at, left.lexemes(), seq![op.lexeme()]);
                assert(tokens[at + nl + 0].kind == seq![op.lexeme()][0]);
                lemma_operator_levels(level, op.lexeme());
                lemma_parse_shaped(tokens, at, *left, level);
                lemma_parse_shaped(tokens, at + nl + 1, *right, level + 1);
                assert(parse_chain(tokens, at + nl + 1 + nr, level + 1, *right) == Ok::<
                    (Formula, nat),
                    SpecParseError,
                >((*right, 0)));
                assert(parse_level(tokens, at + nl + 1, level + 1) == Ok::<
                    (Formula, nat),
                    SpecParseError,
                >((*right, nr)));
                assert(binary_operator(level, token_at(tokens, at + nl).kind) == Some(op));
                assert(parse_chain(tokens, at + nl, level, *left) == shifted(
                    parse_chain(tokens, at + n, level, formula),
                    1 + nr,
                ));
            },
            _ => {},
        }
    }
}

/// Whether a name is one that the lexer reads as an identifier: not empty,
/// starting with a letter or `_`, going on with letters, digits and `_`, and
/// none of the words that stand for a literal.
pub open spec fn is_identifier(name: Seq<char>) -> bool {
    &&& name.len() > 0
    &&& starts_word(name[0])
    &&& forall|i: int| 0 <= i < name.len() ==> continues_word(#[trigger] name[i])
    &&& word_kind(name) == Some(Lexeme::Identifier(name))
}

/// Whether the name of every identifier among the tokens is an identifier.
pub open spec fn well_named(tokens: Seq<SpecToken>) -> bool {
    forall|i: int|
        0 <= i < tokens.len() ==> ((#[trigger] tokens[i]).kind matches Lexeme::Identifier(name)
            ==> is_identifier(name))
}

impl Formula {
    /// Whether the name of every variable in the tree is an identifier.
    pub open spec fn named_by_identifiers(self) -> bool
        decreases self,
    {
        match self {
            Formula::Literal(_) => true,
            Formula::Variable(name) => is_identifier(name),
            Formula::Not(operand) => operand.named_by_identifiers(),
            Formula::Binary(_, left, right) => left.named_by_identifiers()
                && right.named_by_identifiers(),
            Formula::Grouping(inner) => inner.named_by_identifiers(),
        }
    }
}

/// What the parser reads at a level has the shape of that level, takes at
/// least one token, and has its variables from the identifiers among the
/// tokens.
pub proof fn lemma_parsed_is_shaped(tokens: Seq<SpecToken>, at: int, level: nat)
    requires
        well_named(tokens),
        parse_level(tokens, at, level) is Ok,
    ensures
        parse_level(tokens, at, level)->Ok_0.0.shaped(level),
        parse_level(tokens, at, level)->Ok_0.0.named_by_identifiers(),
        parse_level(tokens, at, level)->Ok_0.1 >= 1,
    decreases unread(tokens, at), levels_below(level), 3nat,
{
    if level >= 4 {
        assert(parse_level(tokens, at, level) == parse_prefix(tokens, at));
        let bangs = bang_run(tokens, at);
        lemma_primary_is_shaped(tokens, at + bangs);
    } else {
        lemma_parsed_is_shaped(tokens, at, level + 1);
        let (left, used) = parse_level(tokens, at, level + 1)->Ok_0;
        lemma_chain_is_shaped(tokens, at + used, level, left);
    }
}

/// What the parser makes of a chain of operators has the shape of the
/// chain's level, if the operand that the chain starts with has it.
proof fn lemma_chain_is_shaped(tokens: Seq<SpecToken>, at: int, level: nat, left: Formula)
    requires
        well_named(tokens),
        level < 4,
        left.shaped(level) || left.shaped(level + 1),
        left.named_by_identifiers(),
        parse_chain(tokens, at, level, left) is Ok,
    ensures
        parse_chain(tokens, at, level, left)->Ok_0.0.shaped(level),
        parse_chain(tokens, at, level, left)->Ok_0.0.named_by_identifiers(),
    decreases unread(tokens, at), levels_below(level), 2nat,
{
    match binary_operator(level, token_at(tokens, at).kind) {
        None => {},
        Some(op) => {
            lemma_parsed_is_shaped(tokens, at + 1, level + 1);
            let (right, used) = parse_level(tokens, at + 1, level + 1)->Ok_0;
            let joined = Formula::Binary(op, Box::new(left), Box::new(right));
            assert(joined.shaped(level));
            lemma_chain_is_shaped(tokens, at + 1 + used, level, joined);
        },
    }
}

/// What the parser reads as a primary is a primary, takes at least one
/// token, and with any number of `!` before it has the shape of the prefix
/// level.
proof fn lemma_primary_is_shaped(tokens: Seq<SpecToken>, at: int)
    requires
        well_named(tokens),
        parse_primary(tokens, at) is Ok,
    ensures
        primary(parse_primary(tokens, at)->Ok_0.0),
        parse_primary(tokens, at)->Ok_0.0.named_by_identifiers(),
        parse_primary(tokens, at)->Ok_0.1 >= 1,
    decreases unread(tokens, at), 0nat, 0nat,
{
    let token = token_at(tokens, at);
    match token.kind {
        Lexeme::OpenParen => {
            lemma_parsed_is_shaped(tokens, at + 1, 0);
        },
        Lexeme::Identifier(name) => {
            assert(tokens[at].kind == Lexeme::Identifier(name));
        },
        _ => {},
    }
}

/// Whether the characters of `text` stand in `source` from index `at` on.
pub open spec fn text_at(source: Seq<char>, at: int, text: Seq<char>) -> bool {
    &&& 0 <= at
    &&& at + text.len() <= source.len()
    &&& forall|i: int| 0 <= i < text.len() ==> #[trigger] source[at + i] == text[i]
}

/// Whether a word that ends before index `at` ends there: the text ends, or
/// the character at `at` continues no word.
pub open spec fn word_stops(source: Seq<char>, at: int) -> bool {
    at >= source.len() || !continues_word(source[at])
}

impl Formula {
    /// The tokens that the text of the tree is lexed to when it starts at
    /// index `at`, each with the position that the lexer reports.
    pub open spec fn placed(self, at: int) -> Seq<SpecToken>
        decreases self,
    {
        match self {
            Formula::Literal(value) => seq![
                SpecToken {
                    kind: if value {
                        Lexeme::True
                    } else {
                        Lexeme::False
                    },
                    position: at as nat,
                },
            ],
            Formula::Variable(name) => seq![
                SpecToken { kind: Lexeme::Identifier(name), position: at as nat },
            ],
            Formula::Not(operand) => seq![SpecToken { kind: Lexeme::Bang, position: at as nat }]
                + operand.placed(at + 1),
            Formula::Binary(op, left, right) => {
                let symbol = at + left.text().len() + 1;
                left.placed(at) + seq![
                    SpecToken {
                        kind: op.lexeme(),
                        position: (symbol + op.symbol().len() - 1) as nat,
                    },
                ] + right.placed(symbol + op.symbol().len() + 1)
            },
            Formula::Grouping(inner) => seq![
                SpecToken { kind: Lexeme::OpenParen, position: at as nat },
            ] + inner.placed(at + 1) + seq![
                SpecToken {
                    kind: Lexeme::CloseParen,
                    position: (at + 1 + inner.text().len()) as nat,
                },
            ],
        }
    }
}

/// A text `front + back` that stands at an index is `front` standing there
/// and `back` standing after it.
proof fn lemma_text_split(source: Seq<char>, at: int, front: Seq<char>, back: Seq<char>)
    requires
        text_at(source, at, front + back),
    ensures
        text_at(source, at, front),
        text_at(source, at + front.len(), back),
{
    let whole = front + back;
    assert forall|i: int| 0 <= i < front.len() implies #[trigger] source[at + i] == front[i] by {
        assert(whole[i] == front[i]);
    }
    assert forall|i: int| 0 <= i < back.len() implies #[trigger] source[at + front.len() + i]
        == back[i] by {
        assert(whole[front.len() + i] == back[i]);
        assert(source[at + (front.len() + i)] == whole[front.len() + i]);
    }
}

/// A run of `count` characters that continue a word, with the word stopping
/// after them, is a word run of `count`.
proof fn lemma_word_run(source: Seq<char>, at: int, count: nat)
    requires
        0 <= at,
        at + count <= source.len(),
        forall|i: int| at <= i < at + count ==> continues_word(#[trigger] source[i]),
        word_stops(source, at + count),
    ensures
        word_run(source, at) == count,
    decreases count,
{
    if count > 0 {
        assert(continues_word(source[at]));
        lemma_word_run(source, at + 1, (count - 1) as nat);
    }
}

/// A word of the text, standing where no word goes on after it, is lexed as
/// one token of the word's kind.
proof fn lemma_scan_word(source: Seq<char>, at: int, word: Seq<char>)
    requires
        text_at(source, at, word),
        word.len() > 0,
        starts_word(word[0]),
        forall|i: int| 0 <= i < word.len() ==> continues_word(#[trigger] word[i]),
        word_kind(word) is Some,
        word_stops(source, at + word.len()),
    ensures
        scan(source, at) == after(
            seq![SpecToken { kind: word_kind(word)->Some_0, position: at as nat }],
            scan(source, at + word.len()),
        ),
{
    assert(source[at + 0] == word[0]);
    assert forall|i: int| at + 1 <= i < at + 1 + (word.len() - 1) implies continues_word(
        #[trigger] source[i],
    ) by {
        assert(source[at + (i - at)] == word[i - at]);
    }
    lemma_word_run(source, at + 1, (word.len() - 1) as nat);
    let end = at + 1 + word_run(source, at + 1);
    assert(end == at + word.len());
    assert(source.subrange(at, end) =~= word) by {
        assert forall|i: int| 0 <= i < word.len() implies source.subrange(at, end)[i]
            == word[i] by {
            assert(source[at + i] == word[i]);
        }
    }
    assert(scan_at(source, at) == Scanned::Token(
        SpecToken { kind: word_kind(word)->Some_0, position: at as nat },
        end,
    ));
}

/// One character that is an operator on its own is lexed as its token.
proof fn lemma_scan_single(source: Seq<char>, at: int, kind: Lexeme)
    requires
        0 <= at < source.len(),
        ({
            let c = source[at];
            ||| c == '(' && kind == Lexeme::OpenParen
            ||| c == ')' && kind == Lexeme::CloseParen
            ||| c == '!' && kind == Lexeme::Bang
            ||| c == '+' && kind == Lexeme::Plus
            ||| c == '*' && kind == Lexeme::Star
            ||| c == '^' && kind == Lexeme::Caret
        }),
    ensures
        scan(source, at) == after(
            seq![SpecToken { kind, position: at as nat }],
            scan(source, at + 1),
        ),
{
}

/// A space between tokens is skipped.
proof fn lemma_scan_space(source: Seq<char>, at: int)
    requires
        0 <= at < source.len(),
        source[at] == ' ',
    ensures
        scan(source, at) == scan(source, at + 1),
        word_stops(source, at),
{
}

/// An operator, written as the printer writes it, is lexed as its token.
proof fn lemma_scan_operator(source: Seq<char>, at: int, op: Connective)
    requires
        text_at(source, at, op.symbol()),
    ensures
        scan(source, at) == after(
            seq![SpecToken { kind: op.lexeme(), position: (at + op.symbol().len() - 1) as nat }],
            scan(source, at + op.symbol().len()),
        ),
{
    assert(source[at + 0] == op.symbol()[0]);
    match op {
        Connective::Or => {
            lemma_scan_single(source, at, Lexeme::Plus);
        },
        Connective::And => {
            lemma_scan_single(source, at, Lexeme::Star);
        },
        Connective::Xor => {
            lemma_scan_single(source, at, Lexeme::Caret);
        },
        Connective::Implication => {
            assert(source[at + 1] == op.symbol()[1]);
        },
        Connective::Biconditional => {
            assert(source[at + 1] == op.symbol()[1]);
            assert(source[at + 2] == op.symbol()[2]);
        },
    }
}

/// Where the parts of the text of a binary operation stand.
proof fn lemma_binary_layout(
    source: Seq<char>,
    at: int,
    op: Connective,
    left: Formula,
    right: Formula,
)
    requires
        text_at(
            source,
            at,
            Formula::Binary(op, Box::new(left), Box::new(right)).text(),
        ),
    ensures
        ({
            let symbol = at + left.text().len() + 1;
            let second = symbol + op.symbol().len() + 1;
            &&& text_at(source, at, left.text())
            &&& source[symbol - 1] == ' '
            &&& text_at(source, symbol, op.symbol())
            &&& source[second - 1] == ' '
            &&& text_at(source, second, right.text())
            &&& second + right.text().len() == at + Formula::Binary(
                op,
                Box::new(left),
                Box::new(right),
            ).text().len()
        }),
{
    let space = seq![' '];
    let symbol = at + left.text().len() + 1;
    let second = symbol + op.symbol().len() + 1;
    lemma_text_split(source, at, left.text() + space + op.symbol() + space, right.text());
    lemma_text_split(source, at, left.text() + space + op.symbol(), space);
    lemma_text_split(source, at, left.text() + space, op.symbol());
    lemma_text_split(source, at, left.text(), space);
    assert(source[symbol - 1 + 0] == space[0]);
    assert(source[second - 1 + 0] == space[0]);
}

/// The tokens of a binary operation, from the tokens of its operands.
proof fn lemma_scan_binary(
    source: Seq<char>,
    at: int,
    op: Connective,
    left: Formula,
    right: Formula,
)
    requires
        text_at(
            source,
            at,
            Formula::Binary(op, Box::new(left), Box::new(right)).text(),
        ),
        scan(source, at) == after(left.placed(at), scan(source, at + left.text().len())),
        ({
            let second = at + left.text().len() + op.symbol().len() + 2;
            scan(source, second) == after(
                right.placed(second),
                scan(source, second + right.text().len()),
            )
        }),
    ensures
        ({
            let whole = Formula::Binary(op, Box::new(left), Box::new(right));
            scan(source, at) == after(whole.placed(at), scan(source, at + whole.text().len()))
        }),
{
    let whole = Formula::Binary(op, Box::new(left), Box::new(right));
    let symbol = at + left.text().len() + 1;
    let second = symbol + op.symbol().len() + 1;
    let end = at + whole.text().len();
    lemma_binary_layout(source, at, op, left, right);
    lemma_scan_space(source, symbol - 1);
    lemma_scan_space(source, second - 1);
    lemma_scan_operator(source, symbol, op);
    let sign = seq![
        SpecToken { kind: op.lexeme(), position: (symbol + op.symbol().len() - 1) as nat },
    ];
    assert(scan(source, symbol) == after(sign, scan(source, second)));
    lemma_after_after(sign, right.placed(second), scan(source, end));
    lemma_after_after(left.placed(at), sign + right.placed(second), scan(source, end));
    assert(left.placed(at) + (sign + right.placed(second)) =~= whole.placed(at));
}

/// The tokens of a grouping, from the tokens of what it holds.
proof fn lemma_scan_grouping(source: Seq<char>, at: int, inner: Formula)
    requires
        text_at(source, at, Formula::Grouping(Box::new(inner)).text()),
        scan(source, at + 1) == after(
            inner.placed(at + 1),
            scan(source, at + 1 + inner.text().len()),
        ),
    ensures
        ({
            let whole = Formula::Grouping(Box::new(inner));
            scan(source, at) == after(whole.placed(at), scan(source, at + whole.text().len()))
        }),
{
    let whole = Formula::Grouping(Box::new(inner));
    let close = at + 1 + inner.text().len();
    lemma_text_split(source, at, seq!['('] + inner.text(), seq![')']);
    lemma_text_split(source, at, seq!['('], inner.text());
    assert(source[at + 0] == seq!['('][0]);
    assert(source[close + 0] == seq![')'][0]);
    lemma_scan_single(source, at, Lexeme::OpenParen);
    lemma_scan_single(source, close, Lexeme::CloseParen);
    let opening = seq![SpecToken { kind: Lexeme::OpenParen, position: at as nat }];
    let closing = seq![SpecToken { kind: Lexeme::CloseParen, position: close as nat }];
    lemma_after_after(inner.placed(at + 1), closing, scan(source, close + 1));
    lemma_after_after(opening, inner.placed(at + 1) + closing, scan(source, close + 1));
    assert(opening + (inner.placed(at + 1) + closing) =~= whole.placed(at));
}

/// The tokens of a negation, from the tokens of its operand.
proof fn lemma_scan_negation(source: Seq<char>, at: int, operand: Formula)
    requires
        text_at(source, at, Formula::Not(Box::new(operand)).text()),
        scan(source, at + 1) == after(
            operand.placed(at + 1),
            scan(source, at + 1 + operand.text().len()),
        ),
    ensures
        ({
            let whole = Formula::Not(Box::new(operand));
            scan(source, at) == after(whole.placed(at), scan(source, at + whole.text().len()))
        }),
{
    let whole = Formula::Not(Box::new(operand));
    lemma_text_split(source, at, seq!['!'], operand.text());
    assert(source[at + 0] == seq!['!'][0]);
    lemma_scan_single(source, at, Lexeme::Bang);
    lemma_after_after(
        seq![SpecToken { kind: Lexeme::Bang, position: at as nat }],
        operand.placed(at + 1),
        scan(source, at + whole.text().len()),
    );
}

/// The text of a tree whose variables are named by identifiers, standing
/// where no word goes on after it, is lexed to the tokens of the tree.
pub proof fn lemma_scan_text(source: Seq<char>, at: int, formula: Formula)
    requires
        text_at(source, at, formula.text()),
        formula.named_by_identifiers(),
        word_stops(source, at + formula.text().len()),
    ensures
        scan(source, at) == after(formula.placed(at), scan(source, at + formula.text().len())),
    decreases formula,
{
    match formula {
        Formula::Literal(value) => {
            let word = formula.text();
            lemma_word_kind(word);
            assert(word[0] == if value { 't' } else { 'f' });
            lemma_scan_word(source, at, word);
        },
        Formula::Variable(name) => {
            lemma_scan_word(source, at, name);
        },
        Formula::Not(operand) => {
            lemma_text_split(source, at, seq!['!'], operand.text());
            lemma_scan_text(source, at + 1, *operand);
            lemma_scan_negation(source, at, *operand);
        },
        Formula::Binary(op, left, right) => {
            lemma_binary_layout(source, at, op, *left, *right);
            lemma_scan_space(source, at + left.text().len());
            lemma_scan_text(source, at, *left);
            lemma_scan_text(source, at + left.text().len() + op.symbol().len() + 2, *right);
            lemma_scan_binary(source, at, op, *left, *right);
        },
        Formula::Grouping(inner) => {
            let close = at + 1 + inner.text().len();
            lemma_text_split(source, at, seq!['('] + inner.text(), seq![')']);
            lemma_text_split(source, at, seq!['('], inner.text());
            assert(source[close + 0] == seq![')'][0]);
            lemma_scan_text(source, at + 1, *inner);
            lemma_scan_grouping(source, at, *inner);
        },
    }
}

/// The tokens that a text is lexed to are of the kinds that the tree is
/// written with.
proof fn lemma_placed_kinds(formula: Formula, at: int)
    ensures
        formula.placed(at).len() == formula.lexemes().len(),
        forall|i: int|
            0 <= i < formula.lexemes().len() ==> (#[trigger] formula.placed(at)[i]).kind
                == formula.lexemes()[i],
    decreases formula,
{
    match formula {
        Formula::Literal(_) => {},
        Formula::Variable(_) => {},
        Formula::Not(operand) => {
            lemma_placed_kinds(*operand, at + 1);
        },
        Formula::Binary(op, left, right) => {
            let second = at + left.text().len() + op.symbol().len() + 2;
            lemma_placed_kinds(*left, at);
            lemma_placed_kinds(*right, second);
        },
        Formula::Grouping(inner) => {
            lemma_placed_kinds(*inner, at + 1);
        },
    }
}

/// The text of a tree of the parser's shape, with variables named by
/// identifiers, is lexed without failure, and what it is lexed to parses to
/// the tree.
pub proof fn lemma_text_reads_back(formula: Formula)
    requires
        formula.shaped(0),
        formula.named_by_identifiers(),
    ensures
        lexed(formula.text()) is Ok,
        parsed(lexed(formula.text())->Ok_0) == Ok::<Formula, SpecParseError>(formula),
{
    let source = formula.text();
    let n = formula.lexemes().len();
    let end = SpecToken { kind: Lexeme::EOF, position: source.len() };
    let tokens = formula.placed(0) + seq![end];
    lemma_scan_text(source, 0, formula);
    assert(scan(source, source.len() as int) == Ok::<Seq<SpecToken>, SpecLexError>(seq![end]));
    assert(lexed(source) == Ok::<Seq<SpecToken>, SpecLexError>(tokens));
    lemma_placed_kinds(formula, 0);
    assert(kinds_at(tokens, 0, formula.lexemes())) by {
        assert forall|i: int| 0 <= i < n implies (#[trigger] tokens[0 + i]).kind
            == formula.lexemes()[i] by {
            assert(tokens[i] == formula.placed(0)[i]);
        }
    }
    assert(tokens[n as int] == end);
    lemma_parse_shaped(tokens, 0, formula, 0);
    assert(parse_chain(tokens, n as int, 0, formula) == Ok::<(Formula, nat), SpecParseError>(
        (formula, 0),
    ));
    assert(parse_from(tokens, 0) == Ok::<Formula, SpecParseError>(formula));
}

/// Printing and reading back: where a sequence of tokens, with identifiers
/// for names, parses to a tree, the text of the tree is lexed without
/// failure and parses to the same tree, and so to one that has the same
/// truth value under every assignment.
pub proof fn lemma_round_trip(tokens: Seq<SpecToken>)
    requires
        well_named(tokens),
        parsed(tokens) is Ok,
    ensures
        lexed(parsed(tokens)->Ok_0.text()) is Ok,
        parsed(lexed(parsed(tokens)->Ok_0.text())->Ok_0) == parsed(tokens),
        parsed(lexed(parsed(tokens)->Ok_0.text())->Ok_0)->Ok_0.equivalent(parsed(tokens)->Ok_0),
{
    lemma_parsed_is_shaped(tokens, 0, 0);
    lemma_text_reads_back(parsed(tokens)->Ok_0);
}

/// Every character of a word run continues a word.
proof fn lemma_word_run_continues(source: Seq<char>, at: int, offset: int)
    requires
        0 <= offset < word_run(source, at),
    ensures
        0 <= at + offset < source.len(),
        continues_word(source[at + offset]),
    decreases offset,
{
    if offset > 0 {
        lemma_word_run_continues(source, at + 1, offset - 1);
    }
}

/// What a text is lexed to ends with the end marker, and every identifier in
/// it is named by an identifier.
pub proof fn lemma_scan_well_named(source: Seq<char>, at: int)
    requires
        scan(source, at) is Ok,
    ensures
        well_named(scan(source, at)->Ok_0),
        terminated(scan(source, at)->Ok_0),
    decreases
        if at < source.len() {
            source.len() - at
        } else {
            0
        },
{
    if 0 <= at < source.len() {
        match scan_at(source, at) {
            Scanned::Token(token, next) => {
                lemma_scan_well_named(source, next);
                let rest = scan(source, next)->Ok_0;
                let tokens = seq![token] + rest;
                assert(scan(source, at)->Ok_0 == tokens);
                assert(tokens.last() == rest.last());
                if let Lexeme::Identifier(name) = token.kind {
                    let run = word_run(source, at + 1);
                    let end = at + 1 + run;
                    if run > 0 {
                        lemma_word_run_continues(source, at + 1, run - 1);
                    }
                    let word = source.subrange(at, end);
                    assert(word_kind(word) == Some(token.kind));
                    assert(name == word);
                    assert(name.len() == 1 + run);
                    assert forall|i: int| 0 <= i < name.len() implies continues_word(
                        #[trigger] name[i],
                    ) by {
                        if i > 0 {
                            lemma_word_run_continues(source, at + 1, i - 1);
                            assert(name[i] == source[at + 1 + (i - 1)]);
                        }
                    }
                }
                assert forall|i: int| 0 <= i < tokens.len() implies ((
                #[trigger] tokens[i]).kind matches Lexeme::Identifier(name) ==> is_identifier(
                    name,
                )) by {
                    if i > 0 {
                        assert(tokens[i] == rest[i - 1]);
                    }
                }
            },
            Scanned::Blank(next) => {
                lemma_scan_well_named(source, next);
            },
            Scanned::Fault(_) => {},
        }
    }
}

/// From text to text: where a text is lexed and parsed to a tree, the text
/// that the tree is printed as is lexed and parsed to the same tree.
pub proof fn lemma_print_and_read(source: Seq<char>)
    requires
        lexed(source) is Ok,
        parsed(lexed(source)->Ok_0) is Ok,
    ensures
        ({
            let tree = parsed(lexed(source)->Ok_0)->Ok_0;
            &&& lexed(tree.text()) is Ok
            &&& parsed(lexed(tree.text())->Ok_0) == Ok::<Formula, SpecParseError>(tree)
        }),
{
    lemma_scan_well_named(source, 0);
    lemma_round_trip(lexed(source)->Ok_0);
}

} // verus!
