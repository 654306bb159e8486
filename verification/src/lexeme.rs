//! Tokens as the grammar reads them: a word with the answer to whether it
//! may be bound, a string literal with the text it denotes.

use vstd::prelude::*;
use vstd::string::*;
use crate::literal::{accepted_as_ident, parses_as_ident, str_literal_text, str_literal_value};
use crate::token::{Delimiter, Token, TokenView};

verus! {

/// A token, read.
#[derive(Clone, Debug, PartialEq, Eq)]
pub enum Lexeme {
    /// A word, by its text, and whether a declaration may bind it: keywords
    /// and `_` may not be bound.
    Word(String, bool),
    /// A punctuation character.
    Punct(char),
    /// A string literal, by the text it denotes.
    Text(String),
    /// A literal of any other kind.
    Literal,
    /// An opening bracket.
    Open(Delimiter),
    /// A closing bracket.
    Close(Delimiter),
}

/// The mathematical value of a [`Lexeme`].
pub enum LexemeView {
    Word(Seq<char>, bool),
    Punct(char),
    Text(Seq<char>),
    Literal,
    Open(Delimiter),
    Close(Delimiter),
}

impl View for Lexeme {
    type V = LexemeView;

    open spec fn view(&self) -> LexemeView {
        match *self {
            Lexeme::Word(text, bindable) => LexemeView::Word(text@, bindable),
            Lexeme::Punct(c) => LexemeView::Punct(c),
            Lexeme::Text(text) => LexemeView::Text(text@),
            Lexeme::Literal => LexemeView::Literal,
            Lexeme::Open(d) => LexemeView::Open(d),
            Lexeme::Close(d) => LexemeView::Close(d),
        }
    }
}

impl DeepView for Lexeme {
    type V = LexemeView;

    open spec fn deep_view(&self) -> LexemeView {
        self@
    }
}

/// How a token reads. What follows a punctuation character is not looked at.
pub open spec fn lexeme_of(t: TokenView) -> LexemeView {
    match t {
        TokenView::Ident(text) => LexemeView::Word(text, accepted_as_ident(text)),
        TokenView::Punct(c, _) => LexemeView::Punct(c),
        TokenView::Literal(repr) => match str_literal_text(repr) {
            Some(text) => LexemeView::Text(text),
            None => LexemeView::Literal,
        },
        TokenView::Open(d) => LexemeView::Open(d),
        TokenView::Close(d) => LexemeView::Close(d),
    }
}

/// How a token sequence reads, token by token.
pub open spec fn lexemes_of(ts: Seq<TokenView>) -> Seq<LexemeView> {
    Seq::new(ts.len(), |i: int| lexeme_of(ts[i]))
}

/// Reads one token.
pub fn lexeme(token: &Token) -> (read: Lexeme)
    ensures
        read@ == lexeme_of(token@),
{
    match token {
        Token::Ident(text) => Lexeme::Word(text.clone(), parses_as_ident(text.as_str())),
        Token::Punct(c, _) => Lexeme::Punct(*c),
        Token::Literal(repr) => match str_literal_value(repr.as_str()) {
            Some(text) => Lexeme::Text(text),
            None => Lexeme::Literal,
        },
        Token::Open(d) => Lexeme::Open(*d),
        Token::Close(d) => Lexeme::Close(*d),
    }
}

/// Reads a token sequence.
pub fn lexemes(tokens: &Vec<Token>) -> (read: Vec<Lexeme>)
    ensures
        read.deep_view() == lexemes_of(tokens.deep_view()),
{
    let mut read: Vec<Lexeme> = Vec::new();
    let mut i: usize = 0;
    while i < tokens.len()
        invariant
            i <= tokens.len(),
            read.len() == i,
            forall|k: int| 0 <= k < i ==> read@[k]@ == lexeme_of(#[trigger] tokens@[k]@),
        decreases tokens.len() - i,
    {
        read.push(lexeme(&tokens[i]));
        i += 1;
    }
    assert(read.deep_view() =~= lexemes_of(tokens.deep_view()));
    read
}

} // verus!
