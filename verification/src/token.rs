//! The token model: what an expansion reads and what it writes.

use vstd::prelude::*;

verus! {

/// The brackets that enclose a group of tokens.
#[derive(Clone, Copy, Debug, PartialEq, Eq, Structural)]
pub enum Delimiter {
    /// `( ... )`
    Parenthesis,
    /// `{ ... }`
    Brace,
    /// `[ ... ]`
    Bracket,
}

/// One token of a flat token sequence. A delimited group is written as its
/// opening bracket, its contents and its closing bracket.
#[derive(Clone, Debug, PartialEq, Eq)]
pub enum Token {
    /// A word: an identifier or a keyword, by its text.
    Ident(String),
    /// A single punctuation character; `true` when the next punctuation
    /// character follows it immediately as part of the same operator.
    Punct(char, bool),
    /// A literal, by its source text (a string literal with its quotes and
    /// escapes, a number with its suffix).
    Literal(String),
    /// An opening bracket.
    Open(Delimiter),
    /// A closing bracket.
    Close(Delimiter),
}

/// The mathematical value of a [`Token`].
pub enum TokenView {
    Ident(Seq<char>),
    Punct(char, bool),
    Literal(Seq<char>),
    Open(Delimiter),
    Close(Delimiter),
}

impl View for Token {
    type V = TokenView;

    open spec fn view(&self) -> TokenView {
        match *self {
            Token::Ident(s) => TokenView::Ident(s@),
            Token::Punct(c, joint) => TokenView::Punct(c, joint),
            Token::Literal(s) => TokenView::Literal(s@),
            Token::Open(d) => TokenView::Open(d),
            Token::Close(d) => TokenView::Close(d),
        }
    }
}

impl DeepView for Token {
    type V = TokenView;

    open spec fn deep_view(&self) -> TokenView {
        self@
    }
}

/// Where an emitted token points in diagnostics.
#[derive(Clone, Copy, Debug, PartialEq, Eq, Structural)]
pub enum Span {
    /// The place of the invocation as a whole.
    CallSite,
    /// The place of the input token with this index.
    Input(usize),
}

/// An emitted token together with the place it points to.
#[derive(Clone, Debug, PartialEq, Eq)]
pub struct Spanned {
    pub token: Token,
    pub span: Span,
}

/// The mathematical value of a [`Spanned`].
pub struct SpannedView {
    pub token: TokenView,
    pub span: Span,
}

impl View for Spanned {
    type V = SpannedView;

    open spec fn view(&self) -> SpannedView {
        SpannedView { token: self.token@, span: self.span }
    }
}

impl DeepView for Spanned {
    type V = SpannedView;

    open spec fn deep_view(&self) -> SpannedView {
        self@
    }
}

/// A token that points to the place of the invocation.
pub open spec fn fresh(token: TokenView) -> SpannedView {
    SpannedView { token, span: Span::CallSite }
}

/// A token that points to the place of the input token with index `at`.
pub open spec fn reused(token: TokenView, at: usize) -> SpannedView {
    SpannedView { token, span: Span::Input(at) }
}

} // verus!
