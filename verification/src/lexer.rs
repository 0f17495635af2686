//! The lexer: from source text to a sequence of tokens with positions.
//!
//! `scan` says, for any text and any starting index, what the tokens are or
//! where lexing fails; `Lexer::lex` computes it.

use vstd::prelude::*;
use crate::chars::continues_word;
use crate::chars::is_blank;
use crate::chars::is_space;
use crate::chars::is_word_part;
use crate::chars::is_word_start;
use crate::chars::starts_word;
use crate::grammar::terminated;
use crate::round_trip::lemma_scan_well_named;
use crate::round_trip::well_named;

verus! {

/// What a token is.
#[derive(Debug)]
pub enum TokenKind {
    OpenParen,
    CloseParen,
    Bang,
    Plus,
    Star,
    Caret,
    Arrow,
    DoubleArrow,
    True,
    False,
    Identifier(String),
    EOF,
}

/// A token and the index in the source text that it is reported at.
#[derive(Debug, PartialEq, Eq)]
pub struct Token {
    pub kind: TokenKind,
    pub position: usize,
}

/// Why a text is not a sequence of tokens.
#[derive(Debug, Clone, Copy, PartialEq, Eq, Structural)]
pub enum LexErrorKind {
    /// A character that starts no token.
    UnexpectedCharacter,
    /// `-` that is not followed by `>`.
    MinusWithoutGreater,
    /// `<` that is not followed by `-`.
    LessWithoutMinus,
    /// `<-` that is not followed by `>`.
    LessMinusWithoutGreater,
    /// A word that starts with `0` or `1` and is longer than that digit.
    DigitStartsWord,
}

/// A lexing failure and the index of the character that it is reported at.
#[derive(Debug, Clone, Copy, PartialEq, Eq, Structural)]
pub struct LexError {
    pub kind: LexErrorKind,
    pub position: usize,
}

/// The model of a `TokenKind`: the same variants, an identifier with its
/// name as a sequence of characters.
pub enum Lexeme {
    OpenParen,
    CloseParen,
    Bang,
    Plus,
    Star,
    Caret,
    Arrow,
    DoubleArrow,
    True,
    False,
    Identifier(Seq<char>),
    EOF,
}

/// The model of a `Token`.
pub struct SpecToken {
    pub kind: Lexeme,
    pub position: nat,
}

/// The model of a `LexError`.
pub struct SpecLexError {
    pub kind: LexErrorKind,
    pub position: nat,
}

impl View for TokenKind {
    type V = Lexeme;

    open spec fn view(&self) -> Lexeme {
        match self {
            TokenKind::OpenParen => Lexeme::OpenParen,
            TokenKind::CloseParen => Lexeme::CloseParen,
            TokenKind::Bang => Lexeme::Bang,
            TokenKind::Plus => Lexeme::Plus,
            TokenKind::Star => Lexeme::Star,
            TokenKind::Caret => Lexeme::Caret,
            TokenKind::Arrow => Lexeme::Arrow,
            TokenKind::DoubleArrow => Lexeme::DoubleArrow,
            TokenKind::True => Lexeme::True,
            TokenKind::False => Lexeme::False,
            TokenKind::Identifier(name) => Lexeme::Identifier(name@),
            TokenKind::EOF => Lexeme::EOF,
        }
    }
}

impl View for Token {
    type V = SpecToken;

    open spec fn view(&self) -> SpecToken {
        SpecToken { kind: self.kind@, position: self.position as nat }
    }
}

impl View for LexError {
    type V = SpecLexError;

    open spec fn view(&self) -> SpecLexError {
        SpecLexError { kind: self.kind, position: self.position as nat }
    }
}

/// The models of a sequence of tokens, in order.
pub open spec fn token_views(tokens: Seq<Token>) -> Seq<SpecToken> {
    tokens.map_values(|token: Token| token@)
}

impl Clone for TokenKind {
    fn clone(&self) -> (copy: TokenKind)
        ensures
            copy == *self,
    {
        match self {
            TokenKind::OpenParen => TokenKind::OpenParen,
            TokenKind::CloseParen => TokenKind::CloseParen,
            TokenKind::Bang => TokenKind::Bang,
            TokenKind::Plus => TokenKind::Plus,
            TokenKind::Star => TokenKind::Star,
            TokenKind::Caret => TokenKind::Caret,
            TokenKind::Arrow => TokenKind::Arrow,
            TokenKind::DoubleArrow => TokenKind::DoubleArrow,
            TokenKind::True => TokenKind::True,
            TokenKind::False => TokenKind::False,
            TokenKind::Identifier(name) => TokenKind::Identifier(name.clone()),
            TokenKind::EOF => TokenKind::EOF,
        }
    }
}

impl PartialEq for TokenKind {
    fn eq(&self, other: &TokenKind) -> (same: bool) {
        match (self, other) {
            (TokenKind::OpenParen, TokenKind::OpenParen) => true,
            (TokenKind::CloseParen, TokenKind::CloseParen) => true,
            (TokenKind::Bang, TokenKind::Bang) => true,
            (TokenKind::Plus, TokenKind::Plus) => true,
            (TokenKind::Star, TokenKind::Star) => true,
            (TokenKind::Caret, TokenKind::Caret) => true,
            (TokenKind::Arrow, TokenKind::Arrow) => true,
            (TokenKind::DoubleArrow, TokenKind::DoubleArrow) => true,
            (TokenKind::True, TokenKind::True) => true,
            (TokenKind::False, TokenKind::False) => true,
            (TokenKind::Identifier(mine), TokenKind::Identifier(theirs)) => *mine == *theirs,
            (TokenKind::EOF, TokenKind::EOF) => true,
            _ => false,
        }
    }
}

impl vstd::std_specs::cmp::PartialEqSpecImpl for TokenKind {
    open spec fn obeys_eq_spec() -> bool {
        true
    }

    open spec fn eq_spec(&self, other: &TokenKind) -> bool {
        self@ == other@
    }
}

impl Eq for TokenKind {

}

impl Clone for Token {
    fn clone(&self) -> (copy: Token)
        ensures
            copy == *self,
    {
        Token { kind: self.kind.clone(), position: self.position }
    }
}

impl Token {
    /// A token of the given kind, reported at `position`.
    pub fn new(kind: TokenKind, position: usize) -> (token: Token)
        ensures
            token.kind == kind,
            token.position == position,
    {
        Token { kind, position }
    }
}

/// What the lexer finds at one index of the text.
pub enum Scanned {
    /// A token, and the index after it.
    Token(SpecToken, int),
    /// White space, and the index after it.
    Blank(int),
    /// No token starts here.
    Fault(SpecLexError),
}

/// The number of characters from index `at` on that continue a word.
pub open spec fn word_run(source: Seq<char>, at: int) -> nat
    decreases source.len() - at,
{
    if 0 <= at < source.len() && continues_word(source[at]) {
        1 + word_run(source, at + 1)
    } else {
        0
    }
}

/// The token that a word stands for: `true`, `t` and `1` are the literal
/// true, `false`, `f` and `0` the literal false, and any other word that
/// starts with a letter or `_` is an identifier. A longer word that starts
/// with a digit is no token.
pub open spec fn word_kind(word: Seq<char>) -> Option<Lexeme>
    recommends
        word.len() > 0,
{
    if word == seq!['t', 'r', 'u', 'e'] || word == seq!['t'] || word == seq!['1'] {
        Some(Lexeme::True)
    } else if word == seq!['f', 'a', 'l', 's', 'e'] || word == seq!['f'] || word == seq!['0'] {
        Some(Lexeme::False)
    } else if starts_word(word[0]) {
        Some(Lexeme::Identifier(word))
    } else {
        None
    }
}

/// The token, white space or failure at index `at` of the text.
///
/// A one-character operator is reported at its own index, `->` and `<->` at
/// the index of their `>`, a word at the index of its first character. A
/// word starts with an ASCII letter, `_`, `0` or `1` and goes on as far as
/// letters, digits and `_` follow.
pub open spec fn scan_at(source: Seq<char>, at: int) -> Scanned
    recommends
        0 <= at < source.len(),
{
    let c = source[at];
    let here = at as nat;
    if c == '(' {
        Scanned::Token(SpecToken { kind: Lexeme::OpenParen, position: here }, at + 1)
    } else if c == ')' {
        Scanned::Token(SpecToken { kind: Lexeme::CloseParen, position: here }, at + 1)
    } else if c == '!' {
        Scanned::Token(SpecToken { kind: Lexeme::Bang, position: here }, at + 1)
    } else if c == '+' {
        Scanned::Token(SpecToken { kind: Lexeme::Plus, position: here }, at + 1)
    } else if c == '*' {
        Scanned::Token(SpecToken { kind: Lexeme::Star, position: here }, at + 1)
    } else if c == '^' {
        Scanned::Token(SpecToken { kind: Lexeme::Caret, position: here }, at + 1)
    } else if c == '-' {
        if at + 1 < source.len() && source[at + 1] == '>' {
            Scanned::Token(SpecToken { kind: Lexeme::Arrow, position: here + 1 }, at + 2)
        } else {
            Scanned::Fault(SpecLexError { kind: LexErrorKind::MinusWithoutGreater, position: here })
        }
    } else if c == '<' {
        if at + 1 < source.len() && source[at + 1] == '-' {
            if at + 2 < source.len() && source[at + 2] == '>' {
                Scanned::Token(SpecToken { kind: Lexeme::DoubleArrow, position: here + 2 }, at + 3)
            } else {
                Scanned::Fault(
                    SpecLexError {
                        kind: LexErrorKind::LessMinusWithoutGreater,
                        position: here + 1,
                    },
                )
            }
        } else {
            Scanned::Fault(SpecLexError { kind: LexErrorKind::LessWithoutMinus, position: here })
        }
    } else if is_blank(c) {
        Scanned::Blank(at + 1)
    } else if c == '0' || c == '1' || starts_word(c) {
        let end = at + 1 + word_run(source, at + 1);
        match word_kind(source.subrange(at, end)) {
            Some(kind) => Scanned::Token(SpecToken { kind, position: here }, end),
            None => Scanned::Fault(
                SpecLexError { kind: LexErrorKind::DigitStartsWord, position: here },
            ),
        }
    } else {
        Scanned::Fault(SpecLexError { kind: LexErrorKind::UnexpectedCharacter, position: here })
    }
}

/// `front` followed by the tokens of `rest`, or the failure of `rest`.
pub open spec fn after(
    front: Seq<SpecToken>,
    rest: Result<Seq<SpecToken>, SpecLexError>,
) -> Result<Seq<SpecToken>, SpecLexError> {
    match rest {
        Ok(tokens) => Ok(front + tokens),
        Err(error) => Err(error),
    }
}

/// Tokens put before tokens put before a result are the two runs of tokens,
/// joined, put before the result.
pub proof fn lemma_after_after(
    first: Seq<SpecToken>,
    second: Seq<SpecToken>,
    rest: Result<Seq<SpecToken>, SpecLexError>,
)
    ensures
        after(first, after(second, rest)) == after(first + second, rest),
        second.len() == 1 ==> after(first, after(second, rest)) == after(
            first.push(second[0]),
            rest,
        ),
{
    if let Ok(tokens) = rest {
        assert(first + (second + tokens) =~= (first + second) + tokens);
    }
    if second.len() == 1 {
        assert(first + second =~= first.push(second[0]));
    }
}

/// No tokens put before a result leave the result as it is.
pub proof fn lemma_after_nothing(none: Seq<SpecToken>, rest: Result<Seq<SpecToken>, SpecLexError>)
    requires
        none.len() == 0,
    ensures
        after(none, rest) == rest,
{
    if let Ok(tokens) = rest {
        assert(none + tokens =~= tokens);
    }
}

/// The tokens of the text from index `at` on, ending with the end marker,
/// which is reported at the index where the text ends; or the first failure.
/// After a failure nothing is returned of what came before it.
pub open spec fn scan(source: Seq<char>, at: int) -> Result<Seq<SpecToken>, SpecLexError>
    decreases
        if at < source.len() {
            source.len() - at
        } else {
            0
        },
{
    if !(0 <= at < source.len()) {
        Ok(seq![SpecToken { kind: Lexeme::EOF, position: at as nat }])
    } else {
        match scan_at(source, at) {
            Scanned::Token(token, next) => after(seq![token], scan(source, next)),
            Scanned::Blank(next) => scan(source, next),
            Scanned::Fault(error) => Err(error),
        }
    }
}

/// The tokens of a whole text.
pub open spec fn lexed(source: Seq<char>) -> Result<Seq<SpecToken>, SpecLexError> {
    scan(source, 0)
}

/// A lexer over one source text.
pub struct Lexer {
    source: Vec<char>,
    current: usize,
}

impl Lexer {
    /// The characters of the text.
    pub closed spec fn source(&self) -> Seq<char> {
        self.source@
    }

    /// The index of the next character to read.
    pub closed spec fn cursor(&self) -> int {
        self.current as int
    }

    /// A lexer at the start of `source`.
    pub fn new(source: &str) -> (lexer: Lexer)
        ensures
            lexer.source() == source@,
            lexer.cursor() == 0,
    {
        broadcast use vstd::string::axiom_spec_iter;

        let mut chars: Vec<char> = Vec::new();
        for c in it: source.chars()
            invariant
                it.seq() == source@,
                chars@ == source@.take(it.index()),
        {
            chars.push(c);
            assert(source@.take(it.index() + 1) == source@.take(it.index()).push(c));
        }
        assert(source@.take(source@.len() as int) == source@);
        Lexer { source: chars, current: 0 }
    }

    /// The character at the cursor, if there is one; the cursor moves on by
    /// one either way.
    fn next(&mut self) -> (item: Option<char>)
        requires
            old(self).cursor() < usize::MAX,
        ensures
            final(self).source() == old(self).source(),
            final(self).cursor() == old(self).cursor() + 1,
            item == if old(self).cursor() < old(self).source().len() {
                Some(old(self).source()[old(self).cursor()])
            } else {
                None
            },
    {
        let item = self.peek();
        self.current += 1;
        item
    }

    /// The character at the cursor, if there is one.
    fn peek(&self) -> (item: Option<char>)
        ensures
            item == if self.cursor() < self.source().len() {
                Some(self.source()[self.cursor()])
            } else {
                None
            },
    {
        if self.current < self.source.len() {
            Some(self.source[self.current])
        } else {
            None
        }
    }

    /// The character after the one at the cursor, if there is one.
    fn peek_next(&self) -> (item: Option<char>)
        requires
            self.source().len() > 0,
        ensures
            item == if self.cursor() + 1 < self.source().len() {
                Some(self.source()[self.cursor() + 1])
            } else {
                None
            },
    {
        if self.current >= self.source.len() - 1 {
            return None;
        }
        Some(self.source[self.current + 1])
    }

    /// Reads the word at the cursor and appends its token to `tokens`.
    fn identifier(&mut self, tokens: &mut Vec<Token>) -> (done: Result<(), LexError>)
        requires
            old(self).cursor() < old(self).source().len(),
            ({
                let first = old(self).source()[old(self).cursor()];
                first == '0' || first == '1' || starts_word(first)
            }),
        ensures
            final(self).source() == old(self).source(),
            match scan_at(old(self).source(), old(self).cursor()) {
                Scanned::Token(token, next) => {
                    &&& done is Ok
                    &&& final(self).cursor() == next
                    &&& old(self).cursor() < next <= old(self).source().len()
                    &&& token_views(final(tokens)@) == token_views(old(tokens)@).push(token)
                },
                Scanned::Blank(_) => false,
                Scanned::Fault(error) => {
                    &&& done matches Err(reported)
                    &&& reported@ == error
                    &&& final(tokens)@ == old(tokens)@
                },
            },
    {
        let start_index = self.current;
        let limit = self.source.len();
        self.current += 1;
        while self.current < limit && is_word_part(self.source[self.current])
            invariant
                self.source == old(self).source,
                limit == self.source.len(),
                start_index < self.current <= self.source.len(),
                start_index == old(self).current,
                self.current - (start_index + 1) + word_run(self.source@, self.current as int)
                    == word_run(self.source@, start_index + 1),
            decreases self.source.len() - self.current,
        {
            self.current += 1;
        }
        let first = self.source[start_index];
        let length = self.current - start_index;
        let ghost word = self.source@.subrange(start_index as int, self.current as int);
        proof {
            lemma_word_kind(word);
        }
        let kind = if length == 1 && (first == 't' || first == '1') {
            TokenKind::True
        } else if length == 1 && (first == 'f' || first == '0') {
            TokenKind::False
        } else if length == 4 && first == 't' && self.source[start_index + 1] == 'r'
            && self.source[start_index + 2] == 'u' && self.source[start_index + 3] == 'e' {
            TokenKind::True
        } else if length == 5 && first == 'f' && self.source[start_index + 1] == 'a'
            && self.source[start_index + 2] == 'l' && self.source[start_index + 3] == 's'
            && self.source[start_index + 4] == 'e' {
            TokenKind::False
        } else if is_word_start(first) {
            let mut name = String::new();
            let mut index = start_index;
            while index < self.current
                invariant
                    start_index <= index <= self.current <= self.source.len(),
                    name@ == self.source@.subrange(start_index as int, index as int),
                decreases self.current - index,
            {
                name.push(self.source[index]);
                index += 1;
                assert(self.source@.subrange(start_index as int, index as int)
                    == self.source@.subrange(start_index as int, index - 1).push(
                    self.source@[index - 1],
                ));
            }
            TokenKind::Identifier(name)
        } else {
            return Err(LexError { kind: LexErrorKind::DigitStartsWord, position: start_index });
        };
        let token = Token::new(kind, start_index);
        tokens.push(token);
        assert(token_views(tokens@) == token_views(old(tokens)@).push(token@));
        Ok(())
    }

    /// Whether the character after the one at the cursor is `wanted`.
    fn next_is(&self, wanted: char) -> (yes: bool)
        requires
            self.source().len() > 0,
        ensures
            yes == (self.cursor() + 1 < self.source().len() && self.source()[self.cursor() + 1]
                == wanted),
    {
        match self.peek_next() {
            Some(c) => c == wanted,
            None => false,
        }
    }

    /// Appends a token of one character, reported at the cursor.
    fn single(&self, tokens: &mut Vec<Token>, kind: TokenKind)
        requires
            self.cursor() < self.source().len(),
        ensures
            token_views(final(tokens)@) == token_views(old(tokens)@).push(
                SpecToken { kind: kind@, position: self.cursor() as nat },
            ),
    {
        let token = Token::new(kind, self.current);
        tokens.push(token);
        assert(token_views(tokens@) == token_views(old(tokens)@).push(token@));
    }

    /// Turns the text from the cursor on into tokens, the last of which is
    /// the end marker, or reports the first character at which that fails.
    /// Every identifier among the tokens has a name that starts with a
    /// letter or `_`, goes on with letters, digits and `_`, and is none of
    /// the words for a literal.
    pub fn lex(self) -> (result: Result<Vec<Token>, LexError>)
        ensures
            match result {
                Ok(tokens) => {
                    &&& scan(self.source(), self.cursor()) == Ok::<Seq<SpecToken>, SpecLexError>(
                        token_views(tokens@),
                    )
                    &&& terminated(token_views(tokens@))
                    &&& well_named(token_views(tokens@))
                },
                Err(error) => scan(self.source(), self.cursor()) == Err::<
                    Seq<SpecToken>,
                    SpecLexError,
                >(error@),
            },
    {
        proof {
            if scan(self.source(), self.cursor()) is Ok {
                lemma_scan_well_named(self.source(), self.cursor());
            }
        }
        let mut lexer = self;
        let ghost source = lexer.source@;
        let ghost start = lexer.current as int;
        let mut tokens: Vec<Token> = Vec::new();
        proof {
            lemma_after_nothing(token_views(tokens@), scan(source, start));
        }
        while lexer.current < lexer.source.len()
            invariant
                lexer.source@ == source,
                source == self.source(),
                start == self.cursor(),
                scan(source, start) == after(
                    token_views(tokens@),
                    scan(source, lexer.current as int),
                ),
            decreases lexer.source.len() - lexer.current,
        {
            let ghost before = token_views(tokens@);
            let ghost at = lexer.current as int;
            let ch = lexer.source[lexer.current];
            if ch == '(' {
                lexer.single(&mut tokens, TokenKind::OpenParen);
            } else if ch == ')' {
                lexer.single(&mut tokens, TokenKind::CloseParen);
            } else if ch == '!' {
                lexer.single(&mut tokens, TokenKind::Bang);
            } else if ch == '+' {
                lexer.single(&mut tokens, TokenKind::Plus);
            } else if ch == '*' {
                lexer.single(&mut tokens, TokenKind::Star);
            } else if ch == '^' {
                lexer.single(&mut tokens, TokenKind::Caret);
            } else if ch == '-' {
                if lexer.next_is('>') {
                    lexer.next();
                    lexer.single(&mut tokens, TokenKind::Arrow);
                } else {
                    return Err(
                        LexError {
                            kind: LexErrorKind::MinusWithoutGreater,
                            position: lexer.current,
                        },
                    );
                }
            } else if ch == '<' {
                if lexer.next_is('-') {
                    lexer.next();
                    if lexer.next_is('>') {
                        lexer.next();
                        lexer.single(&mut tokens, TokenKind::DoubleArrow);
                    } else {
                        return Err(
                            LexError {
                                kind: LexErrorKind::LessMinusWithoutGreater,
                                position: lexer.current,
                            },
                        );
                    }
                } else {
                    return Err(
                        LexError { kind: LexErrorKind::LessWithoutMinus, position: lexer.current },
                    );
                }
            } else if is_space(ch) {
            } else if ch == '0' || ch == '1' || is_word_start(ch) {
                match lexer.identifier(&mut tokens) {
                    Ok(()) => {},
                    Err(error) => {
                        return Err(error);
                    },
                }
                proof {
                    let token = scan_at(source, at)->Token_0;
                    lemma_after_after(before, seq![token], scan(source, lexer.current as int));
                }
                continue ;
            } else {
                return Err(
                    LexError { kind: LexErrorKind::UnexpectedCharacter, position: lexer.current },
                );
            }
            lexer.next();
            proof {
                if let Scanned::Token(token, next) = scan_at(source, at) {
                    lemma_after_after(before, seq![token], scan(source, next));
                }
            }
        }
        let ghost before = token_views(tokens@);
        let end = Token::new(TokenKind::EOF, lexer.current);
        tokens.push(end);
        assert(token_views(tokens@) == before + seq![end@]);
        Ok(tokens)
    }
}

/// `String::push` of the standard library appends one character to the
/// string.
pub assume_specification[ String::push ](text: &mut String, c: char)
    ensures
        final(text)@ == old(text)@.push(c),
;

/// Whether the word is `true`, `t` or `1`, told by its characters.
pub open spec fn spells_true(word: Seq<char>) -> bool {
    ||| word.len() == 1 && (word[0] == 't' || word[0] == '1')
    ||| word.len() == 4 && word[0] == 't' && word[1] == 'r' && word[2] == 'u' && word[3] == 'e'
}

/// Whether the word is `false`, `f` or `0`, told by its characters.
pub open spec fn spells_false(word: Seq<char>) -> bool {
    ||| word.len() == 1 && (word[0] == 'f' || word[0] == '0')
    ||| word.len() == 5 && word[0] == 'f' && word[1] == 'a' && word[2] == 'l' && word[3] == 's'
        && word[4] == 'e'
}

/// The kind of a word, told by its characters.
pub proof fn lemma_word_kind(word: Seq<char>)
    ensures
        word_kind(word) == if spells_true(word) {
            Some(Lexeme::True)
        } else if spells_false(word) {
            Some(Lexeme::False)
        } else if starts_word(word[0]) {
            Some(Lexeme::Identifier(word))
        } else {
            None
        },
{
    let long_true = seq!['t', 'r', 'u', 'e'];
    let long_false = seq!['f', 'a', 'l', 's', 'e'];
    assert(long_true.len() == 4 && long_true[0] == 't' && long_true[1] == 'r' && long_true[2]
        == 'u' && long_true[3] == 'e');
    assert(long_false.len() == 5 && long_false[0] == 'f' && long_false[1] == 'a' && long_false[2]
        == 'l' && long_false[3] == 's' && long_false[4] == 'e');
    assert(seq!['t'].len() == 1 && seq!['t'][0] == 't');
    assert(seq!['1'].len() == 1 && seq!['1'][0] == '1');
    assert(seq!['f'].len() == 1 && seq!['f'][0] == 'f');
    assert(seq!['0'].len() == 1 && seq!['0'][0] == '0');
    if spells_true(word) {
        if word.len() == 4 {
            assert(word =~= long_true);
        } else if word[0] == 't' {
            assert(word =~= seq!['t']);
        } else {
            assert(word =~= seq!['1']);
        }
    } else if spells_false(word) {
        if word.len() == 5 {
            assert(word =~= long_false);
        } else if word[0] == 'f' {
            assert(word =~= seq!['f']);
        } else {
            assert(word =~= seq!['0']);
        }
    }
}

} // verus!
