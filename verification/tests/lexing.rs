use boolalg::lexer::{LexError, LexErrorKind, Lexer, Token, TokenKind};

fn kinds(source: &str) -> Vec<TokenKind> {
    Lexer::new(source).lex().unwrap().into_iter().map(|t| t.kind).collect()
}

fn ident(name: &str) -> TokenKind {
    TokenKind::Identifier(name.to_string())
}

fn failure(source: &str) -> LexError {
    Lexer::new(source).lex().unwrap_err()
}

#[test]
fn empty_text_is_the_end_marker() {
    assert_eq!(
        Lexer::new("").lex(),
        Ok(vec![Token { kind: TokenKind::EOF, position: 0 }])
    );
}

#[test]
fn one_character_operators() {
    assert_eq!(
        kinds("()!+*^"),
        vec![
            TokenKind::OpenParen,
            TokenKind::CloseParen,
            TokenKind::Bang,
            TokenKind::Plus,
            TokenKind::Star,
            TokenKind::Caret,
            TokenKind::EOF,
        ]
    );
}

#[test]
fn tokens_carry_their_positions() {
    assert_eq!(
        Lexer::new("a + (b)").lex(),
        Ok(vec![
            Token { kind: ident("a"), position: 0 },
            Token { kind: TokenKind::Plus, position: 2 },
            Token { kind: TokenKind::OpenParen, position: 4 },
            Token { kind: ident("b"), position: 5 },
            Token { kind: TokenKind::CloseParen, position: 6 },
            Token { kind: TokenKind::EOF, position: 7 },
        ])
    );
}

#[test]
fn arrows_are_reported_at_their_last_character() {
    assert_eq!(
        Lexer::new("a -> b <-> c").lex(),
        Ok(vec![
            Token { kind: ident("a"), position: 0 },
            Token { kind: TokenKind::Arrow, position: 3 },
            Token { kind: ident("b"), position: 5 },
            Token { kind: TokenKind::DoubleArrow, position: 9 },
            Token { kind: ident("c"), position: 11 },
            Token { kind: TokenKind::EOF, position: 12 },
        ])
    );
}

#[test]
fn arrows_need_no_space_around_them() {
    assert_eq!(
        kinds("a->b<->c"),
        vec![
            ident("a"),
            TokenKind::Arrow,
            ident("b"),
            TokenKind::DoubleArrow,
            ident("c"),
            TokenKind::EOF
        ]
    );
}

#[test]
fn literal_words() {
    assert_eq!(
        kinds("true t 1 false f 0"),
        vec![
            TokenKind::True,
            TokenKind::True,
            TokenKind::True,
            TokenKind::False,
            TokenKind::False,
            TokenKind::False,
            TokenKind::EOF,
        ]
    );
}

#[test]
fn literal_words_are_matched_exactly() {
    assert_eq!(
        kinds("True TRUE tr truex T F fa falsey t1 f0 _t"),
        vec![
            ident("True"),
            ident("TRUE"),
            ident("tr"),
            ident("truex"),
            ident("T"),
            ident("F"),
            ident("fa"),
            ident("falsey"),
            ident("t1"),
            ident("f0"),
            ident("_t"),
            TokenKind::EOF,
        ]
    );
}

#[test]
fn identifiers_take_letters_digits_and_underscores() {
    assert_eq!(
        kinds("var2 _3 a_b_c X9z"),
        vec![ident("var2"), ident("_3"), ident("a_b_c"), ident("X9z"), TokenKind::EOF]
    );
}

#[test]
fn an_identifier_ends_at_an_operator() {
    assert_eq!(
        kinds("ab*cd)e!"),
        vec![
            ident("ab"),
            TokenKind::Star,
            ident("cd"),
            TokenKind::CloseParen,
            ident("e"),
            TokenKind::Bang,
            TokenKind::EOF
        ]
    );
}

#[test]
fn an_identifier_goes_on_over_letters_beyond_ascii() {
    assert_eq!(kinds("a\u{e9}b"), vec![ident("a\u{e9}b"), TokenKind::EOF]);
    assert_eq!(kinds("x\u{663}"), vec![ident("x\u{663}"), TokenKind::EOF]);
}

#[test]
fn an_identifier_does_not_start_beyond_ascii() {
    assert_eq!(
        failure("\u{e9}a"),
        LexError { kind: LexErrorKind::UnexpectedCharacter, position: 0 }
    );
}

#[test]
fn an_identifier_stops_at_a_symbol_beyond_ascii() {
    assert_eq!(
        failure("a\u{2192}b"),
        LexError { kind: LexErrorKind::UnexpectedCharacter, position: 1 }
    );
}

#[test]
fn white_space_is_skipped() {
    assert_eq!(
        kinds(" \ta\n\r+\u{b}\u{c}b  "),
        vec![ident("a"), TokenKind::Plus, ident("b"), TokenKind::EOF]
    );
}

#[test]
fn white_space_beyond_ascii_is_skipped() {
    assert_eq!(
        Lexer::new("a\u{a0}\u{2003}b").lex(),
        Ok(vec![
            Token { kind: ident("a"), position: 0 },
            Token { kind: ident("b"), position: 3 },
            Token { kind: TokenKind::EOF, position: 4 },
        ])
    );
}

#[test]
fn positions_count_characters() {
    assert_eq!(
        Lexer::new("a\u{e9} + b").lex(),
        Ok(vec![
            Token { kind: ident("a\u{e9}"), position: 0 },
            Token { kind: TokenKind::Plus, position: 3 },
            Token { kind: ident("b"), position: 5 },
            Token { kind: TokenKind::EOF, position: 6 },
        ])
    );
}

#[test]
fn unexpected_character() {
    assert_eq!(
        failure("a + $"),
        LexError { kind: LexErrorKind::UnexpectedCharacter, position: 4 }
    );
    assert_eq!(failure("2"), LexError { kind: LexErrorKind::UnexpectedCharacter, position: 0 });
    assert_eq!(failure("a > b"), LexError { kind: LexErrorKind::UnexpectedCharacter, position: 2 });
    assert_eq!(failure("a => b"), LexError { kind: LexErrorKind::UnexpectedCharacter, position: 2 });
}

#[test]
fn minus_without_greater() {
    assert_eq!(failure("a - b"), LexError { kind: LexErrorKind::MinusWithoutGreater, position: 2 });
    assert_eq!(failure("a -"), LexError { kind: LexErrorKind::MinusWithoutGreater, position: 2 });
}

#[test]
fn less_without_minus() {
    assert_eq!(failure("a < b"), LexError { kind: LexErrorKind::LessWithoutMinus, position: 2 });
    assert_eq!(failure("<"), LexError { kind: LexErrorKind::LessWithoutMinus, position: 0 });
}

#[test]
fn less_minus_without_greater() {
    assert_eq!(
        failure("a <- b"),
        LexError { kind: LexErrorKind::LessMinusWithoutGreater, position: 3 }
    );
    assert_eq!(
        failure("<-"),
        LexError { kind: LexErrorKind::LessMinusWithoutGreater, position: 1 }
    );
}

#[test]
fn a_digit_starts_no_longer_word() {
    assert_eq!(failure("10"), LexError { kind: LexErrorKind::DigitStartsWord, position: 0 });
    assert_eq!(failure("a + 1x"), LexError { kind: LexErrorKind::DigitStartsWord, position: 4 });
    assert_eq!(failure("0_"), LexError { kind: LexErrorKind::DigitStartsWord, position: 0 });
}

#[test]
fn nothing_is_returned_of_what_came_before_a_failure() {
    assert!(Lexer::new("a + b $ c").lex().is_err());
}

#[test]
fn token_new_and_clone() {
    let token = Token::new(ident("abc"), 7);
    assert_eq!(token.kind, ident("abc"));
    assert_eq!(token.position, 7);
    assert_eq!(token.clone(), token);
    assert_eq!(TokenKind::Arrow.clone(), TokenKind::Arrow);
}

#[test]
fn token_kinds_compare_by_variant_and_name() {
    assert_eq!(TokenKind::Plus, TokenKind::Plus);
    assert_ne!(TokenKind::Plus, TokenKind::Star);
    assert_eq!(ident("a"), ident("a"));
    assert_ne!(ident("a"), ident("b"));
    assert_ne!(ident("t"), TokenKind::True);
    assert_ne!(TokenKind::EOF, TokenKind::OpenParen);
}
