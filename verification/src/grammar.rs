//! The declaration grammar: `static progmem string NAME = <source> ;` where
//! the source is a string literal or `include_str ! ( <string literal> )`.
//!
//! The grammar has one token per slot, so a token sequence either fills every
//! slot and ends there, or diverges at exactly one index. It is stated on
//! tokens as read, and nothing in it rests on how a token is read.

use vstd::prelude::*;
use vstd::string::*;
use crate::lexeme::{lexemes, lexemes_of, Lexeme, LexemeView};
use crate::token::{Delimiter, Token};

verus! {

/// What is wrong at the point where an invocation is rejected.
#[derive(Clone, Copy, Debug, PartialEq, Eq, Structural)]
pub enum Fault {
    ExpectedStatic,
    ExpectedProgmem,
    ExpectedString,
    ExpectedIdentifier,
    ExpectedEquals,
    ExpectedIncludeStr,
    ExpectedBang,
    ExpectedParentheses,
    ExpectedStringLiteral,
    ExpectedSemicolon,
    /// A token where the invocation, or the group it stands in, should end.
    UnexpectedToken,
    /// The file named by an inclusion could not be read.
    UnreadableFile,
}

/// A rejected invocation: the index of the offending token, what is wrong
/// there, and whether the tokens run out at that index (the sequence ends, or
/// a closing bracket stands there).
#[derive(Clone, Copy, Debug, PartialEq, Eq, Structural)]
pub struct ParseError {
    pub at: usize,
    pub fault: Fault,
    pub at_end: bool,
}

/// Where the bytes of a declaration come from.
#[derive(Clone, Debug, PartialEq, Eq)]
pub enum Source {
    /// A string literal, by the text it denotes.
    Text(String),
    /// An inclusion, by the file name its literal denotes and the index of
    /// that literal.
    File(String, usize),
}

/// The mathematical value of a [`Source`].
pub enum SourceView {
    Text(Seq<char>),
    File(Seq<char>, usize),
}

impl View for Source {
    type V = SourceView;

    open spec fn view(&self) -> SourceView {
        match *self {
            Source::Text(text) => SourceView::Text(text@),
            Source::File(name, at) => SourceView::File(name@, at),
        }
    }
}

/// A recognised declaration: the name it binds, its source, and the indices
/// of the input tokens that the expansion writes again.
#[derive(Clone, Debug, PartialEq, Eq)]
pub struct Arguments {
    pub static_at: usize,
    pub varname: String,
    pub varname_at: usize,
    pub eq_at: usize,
    pub source: Source,
    pub semicolon_at: usize,
}

/// The mathematical value of an [`Arguments`].
pub struct ArgumentsView {
    pub static_at: usize,
    pub varname: Seq<char>,
    pub varname_at: usize,
    pub eq_at: usize,
    pub source: SourceView,
    pub semicolon_at: usize,
}

impl View for Arguments {
    type V = ArgumentsView;

    open spec fn view(&self) -> ArgumentsView {
        ArgumentsView {
            static_at: self.static_at,
            varname: self.varname@,
            varname_at: self.varname_at,
            eq_at: self.eq_at,
            source: self.source@,
            semicolon_at: self.semicolon_at,
        }
    }
}

/// The token is the word `word`.
pub open spec fn is_word(t: LexemeView, word: Seq<char>) -> bool {
    t matches LexemeView::Word(text, _) && text == word
}

/// The token is the punctuation character `c`.
pub open spec fn is_punct(t: LexemeView, c: char) -> bool {
    t == LexemeView::Punct(c)
}

/// The token is a word that a declaration may bind.
pub open spec fn is_name(t: LexemeView) -> bool {
    t matches LexemeView::Word(_, bindable) && bindable
}

/// The text the token denotes, if it is a string literal.
pub open spec fn text_of(t: LexemeView) -> Option<Seq<char>> {
    match t {
        LexemeView::Text(text) => Some(text),
        _ => None,
    }
}

/// The tokens run out at index `at`.
pub open spec fn ends_at(ls: Seq<LexemeView>, at: int) -> bool {
    at >= ls.len() || ls[at] is Close
}

/// Slot `k` of an inclusion that starts at index `start` is filled:
/// `include_str`, `!`, `(`, a string literal, `)`.
pub open spec fn directive_slot_ok(ls: Seq<LexemeView>, start: int, k: int) -> bool {
    let t = ls[start + k];
    &&& 0 <= k < 5
    &&& 0 <= start + k < ls.len()
    &&& k == 0 ==> is_word(t, "include_str"@)
    &&& k == 1 ==> is_punct(t, '!')
    &&& k == 2 ==> t == LexemeView::Open(Delimiter::Parenthesis)
    &&& k == 3 ==> text_of(t) is Some
    &&& k == 4 ==> t == LexemeView::Close(Delimiter::Parenthesis)
}

/// What is reported when slot `k` of an inclusion is not filled.
pub open spec fn directive_fault(k: int) -> Fault {
    if k == 0 {
        Fault::ExpectedIncludeStr
    } else if k == 1 {
        Fault::ExpectedBang
    } else if k == 2 {
        Fault::ExpectedParentheses
    } else if k == 3 {
        Fault::ExpectedStringLiteral
    } else {
        Fault::UnexpectedToken
    }
}

/// The first `n` slots of an inclusion that starts at `start` are filled.
pub open spec fn directive_fits(ls: Seq<LexemeView>, start: int, n: int) -> bool {
    forall|k: int| 0 <= k < n ==> directive_slot_ok(ls, start, k)
}

/// The source of the declaration is a string literal rather than an inclusion.
pub open spec fn is_inline(ls: Seq<LexemeView>) -> bool {
    ls.len() > 5 && text_of(ls[5]) is Some
}

/// The number of tokens of a declaration with the source form of `ls`.
pub open spec fn expected_len(ls: Seq<LexemeView>) -> int {
    if is_inline(ls) {
        7
    } else {
        11
    }
}

/// Slot `i` of the declaration is filled.
pub open spec fn slot_ok(ls: Seq<LexemeView>, i: int) -> bool {
    &&& 0 <= i < ls.len()
    &&& i < expected_len(ls)
    &&& if i == 0 {
        is_word(ls[i], "static"@)
    } else if i == 1 {
        is_word(ls[i], "progmem"@)
    } else if i == 2 {
        is_word(ls[i], "string"@)
    } else if i == 3 {
        is_name(ls[i])
    } else if i == 4 {
        is_punct(ls[i], '=')
    } else if is_inline(ls) {
        i == 5 || is_punct(ls[i], ';')
    } else if i < 10 {
        directive_slot_ok(ls, 5, i - 5)
    } else {
        is_punct(ls[i], ';')
    }
}

/// What is reported when slot `i` of the declaration is not filled, or when
/// a token follows the last slot.
pub open spec fn slot_fault(ls: Seq<LexemeView>, i: int) -> Fault {
    if i == 0 {
        Fault::ExpectedStatic
    } else if i == 1 {
        Fault::ExpectedProgmem
    } else if i == 2 {
        Fault::ExpectedString
    } else if i == 3 {
        Fault::ExpectedIdentifier
    } else if i == 4 {
        Fault::ExpectedEquals
    } else if i >= expected_len(ls) {
        Fault::UnexpectedToken
    } else if i == expected_len(ls) - 1 {
        Fault::ExpectedSemicolon
    } else {
        directive_fault(i - 5)
    }
}

/// The first `n` slots of the declaration are filled.
pub open spec fn fits_up_to(ls: Seq<LexemeView>, n: int) -> bool {
    forall|i: int| 0 <= i < n ==> slot_ok(ls, i)
}

/// The tokens are one declaration: every slot is filled and nothing follows.
pub open spec fn well_formed(ls: Seq<LexemeView>) -> bool {
    ls.len() == expected_len(ls) && fits_up_to(ls, expected_len(ls))
}

/// The tokens diverge from the grammar at index `at`: every slot before it is
/// filled, and slot `at` is not, or `at` is past the last slot and a token
/// stands there.
pub open spec fn rejected_at(ls: Seq<LexemeView>, at: int) -> bool {
    &&& 0 <= at <= ls.len()
    &&& fits_up_to(ls, at)
    &&& if at < expected_len(ls) {
        !slot_ok(ls, at)
    } else {
        at == expected_len(ls) && at < ls.len()
    }
}

/// The error reported for tokens that diverge at index `at`.
pub open spec fn grammar_error(ls: Seq<LexemeView>, at: int) -> ParseError {
    ParseError { at: at as usize, fault: slot_fault(ls, at), at_end: ends_at(ls, at) }
}

/// The source of a well-formed declaration.
pub open spec fn declared_source(ls: Seq<LexemeView>) -> SourceView {
    if is_inline(ls) {
        SourceView::Text(text_of(ls[5])->0)
    } else {
        SourceView::File(text_of(ls[8])->0, 8)
    }
}

/// What a well-formed declaration declares.
pub open spec fn declared(ls: Seq<LexemeView>) -> ArgumentsView {
    ArgumentsView {
        static_at: 0,
        varname: ls[3]->Word_0,
        varname_at: 3,
        eq_at: 4,
        source: declared_source(ls),
        semicolon_at: (expected_len(ls) - 1) as usize,
    }
}

/// Whether the tokens run out at index `at`.
fn runs_out(lexemes: &Vec<Lexeme>, at: usize) -> (end: bool)
    ensures
        end == ends_at(lexemes.deep_view(), at as int),
{
    if at >= lexemes.len() {
        true
    } else {
        match &lexemes[at] {
            Lexeme::Close(_) => true,
            _ => false,
        }
    }
}

/// Whether the word `word` stands at index `at`.
fn word_at(lexemes: &Vec<Lexeme>, at: usize, word: &str) -> (found: bool)
    ensures
        found == (at < lexemes.len() && is_word(lexemes.deep_view()[at as int], word@)),
{
    if at >= lexemes.len() {
        return false;
    }
    match &lexemes[at] {
        Lexeme::Word(text, _) => {
            let wanted = String::from_str(word);
            *text == wanted
        },
        _ => false,
    }
}

/// Whether the punctuation character `c` stands at index `at`.
fn punct_at(lexemes: &Vec<Lexeme>, at: usize, c: char) -> (found: bool)
    ensures
        found == (at < lexemes.len() && is_punct(lexemes.deep_view()[at as int], c)),
{
    if at >= lexemes.len() {
        return false;
    }
    match &lexemes[at] {
        Lexeme::Punct(ch) => *ch == c,
        _ => false,
    }
}

/// Whether a parenthesis stands at index `at`: the opening one if `open`,
/// else the closing one.
fn bracket_at(lexemes: &Vec<Lexeme>, at: usize, open: bool) -> (found: bool)
    ensures
        found == (at < lexemes.len() && lexemes.deep_view()[at as int] == if open {
            LexemeView::Open(Delimiter::Parenthesis)
        } else {
            LexemeView::Close(Delimiter::Parenthesis)
        }),
{
    if at >= lexemes.len() {
        return false;
    }
    match &lexemes[at] {
        Lexeme::Open(Delimiter::Parenthesis) => open,
        Lexeme::Close(Delimiter::Parenthesis) => !open,
        _ => false,
    }
}

/// The name at index `at`, if a word stands there that may be bound.
fn name_at(lexemes: &Vec<Lexeme>, at: usize) -> (name: Option<String>)
    ensures
        name is Some <==> at < lexemes.len() && is_name(lexemes.deep_view()[at as int]),
        name matches Some(text) ==> lexemes.deep_view()[at as int] == LexemeView::Word(
            text@,
            true,
        ),
{
    if at >= lexemes.len() {
        return None;
    }
    match &lexemes[at] {
        Lexeme::Word(text, bindable) => {
            if *bindable {
                Some(text.clone())
            } else {
                None
            }
        },
        _ => None,
    }
}

/// The text of the string literal at index `at`, if one stands there.
fn string_literal_at(lexemes: &Vec<Lexeme>, at: usize) -> (text: Option<String>)
    ensures
        text.deep_view() == if at < lexemes.len() {
            text_of(lexemes.deep_view()[at as int])
        } else {
            None
        },
{
    if at >= lexemes.len() {
        return None;
    }
    match &lexemes[at] {
        Lexeme::Text(text) => Some(text.clone()),
        _ => None,
    }
}

/// The error for a fault at index `at`.
fn complaint(lexemes: &Vec<Lexeme>, at: usize, fault: Fault) -> (e: ParseError)
    ensures
        e == (ParseError { at, fault, at_end: ends_at(lexemes.deep_view(), at as int) }),
{
    ParseError { at, fault, at_end: runs_out(lexemes, at) }
}

/// Recognises the inclusion `include_str ! ( <string literal> )` in the five
/// tokens from index `start` on, and gives the file name that its literal
/// denotes. Rejects at the first slot that is not filled.
pub fn custom_include_str(lexemes: &Vec<Lexeme>, start: usize) -> (r: Result<String, ParseError>)
    ensures
        r is Ok <==> directive_fits(lexemes.deep_view(), start as int, 5),
        r matches Ok(name) ==> text_of(lexemes.deep_view()[start + 3]) == Some(name@),
        r matches Err(e) ==> {
            let k = e.at - start;
            &&& 0 <= k < 5
            &&& directive_fits(lexemes.deep_view(), start as int, k)
            &&& !directive_slot_ok(lexemes.deep_view(), start as int, k)
            &&& e == (ParseError {
                at: e.at,
                fault: directive_fault(k),
                at_end: ends_at(lexemes.deep_view(), e.at as int),
            })
        },
{
    let ghost ls = lexemes.deep_view();
    if !word_at(lexemes, start, "include_str") {
        assert(!directive_slot_ok(ls, start as int, 0));
        return Err(complaint(lexemes, start, Fault::ExpectedIncludeStr));
    }
    if !punct_at(lexemes, start + 1, '!') {
        assert(!directive_slot_ok(ls, start as int, 1));
        return Err(complaint(lexemes, start + 1, Fault::ExpectedBang));
    }
    if !bracket_at(lexemes, start + 2, true) {
        assert(!directive_slot_ok(ls, start as int, 2));
        return Err(complaint(lexemes, start + 2, Fault::ExpectedParentheses));
    }
    let name = match string_literal_at(lexemes, start + 3) {
        Some(name) => name,
        None => {
            assert(!directive_slot_ok(ls, start as int, 3));
            return Err(complaint(lexemes, start + 3, Fault::ExpectedStringLiteral));
        },
    };
    if !bracket_at(lexemes, start + 4, false) {
        assert(!directive_slot_ok(ls, start as int, 4));
        return Err(complaint(lexemes, start + 4, Fault::UnexpectedToken));
    }
    Ok(name)
}

/// A sequence that diverges somewhere is no declaration.
pub proof fn rejected_is_not_well_formed(ls: Seq<LexemeView>, at: int)
    requires
        rejected_at(ls, at),
    ensures
        !well_formed(ls),
{
    if at < expected_len(ls) {
        assert(!slot_ok(ls, at));
    }
}

/// The tokens diverge at one index at most.
pub proof fn divergence_is_unique(ls: Seq<LexemeView>, a: int, b: int)
    requires
        rejected_at(ls, a),
        rejected_at(ls, b),
    ensures
        a == b,
{
    if a < b {
        assert(slot_ok(ls, a));
    } else if b < a {
        assert(slot_ok(ls, b));
    }
}

/// The index at which tokens that are no declaration diverge.
pub open spec fn divergence(ls: Seq<LexemeView>) -> int {
    choose|at: int| rejected_at(ls, at)
}

/// What recognising a declaration in `ls` gives: the declaration, or the
/// error at the index of divergence.
pub open spec fn recognized(ls: Seq<LexemeView>) -> Result<ArgumentsView, ParseError> {
    if well_formed(ls) {
        Ok(declared(ls))
    } else {
        Err(grammar_error(ls, divergence(ls)))
    }
}

/// The mathematical value of the outcome of recognising a declaration.
pub open spec fn parse_view(r: Result<Arguments, ParseError>) -> Result<
    ArgumentsView,
    ParseError,
> {
    match r {
        Ok(args) => Ok(args@),
        Err(e) => Err(e),
    }
}

/// The error for tokens that diverge at index `at`.
fn reject(lexemes: &Vec<Lexeme>, at: usize, fault: Fault) -> (e: ParseError)
    requires
        rejected_at(lexemes.deep_view(), at as int),
        fault == slot_fault(lexemes.deep_view(), at as int),
    ensures
        e == grammar_error(lexemes.deep_view(), at as int),
        !well_formed(lexemes.deep_view()),
        divergence(lexemes.deep_view()) == at,
{
    proof {
        rejected_is_not_well_formed(lexemes.deep_view(), at as int);
        divergence_is_unique(lexemes.deep_view(), at as int, divergence(lexemes.deep_view()));
    }
    complaint(lexemes, at, fault)
}

impl Arguments {
    /// Recognises one declaration in tokens as read. Succeeds exactly when
    /// every slot of the grammar is filled and nothing follows; otherwise
    /// rejects at the index where the tokens first diverge from the grammar.
    pub fn recognize(lexemes: &Vec<Lexeme>) -> (r: Result<Arguments, ParseError>)
        ensures
            r is Ok <==> well_formed(lexemes.deep_view()),
            r matches Ok(args) ==> args@ == declared(lexemes.deep_view()),
            r matches Err(e) ==> rejected_at(lexemes.deep_view(), e.at as int) && e
                == grammar_error(lexemes.deep_view(), e.at as int),
            parse_view(r) == recognized(lexemes.deep_view()),
    {
        let ghost ls = lexemes.deep_view();
        if !word_at(lexemes, 0, "static") {
            return Err(reject(lexemes, 0, Fault::ExpectedStatic));
        }
        if !word_at(lexemes, 1, "progmem") {
            return Err(reject(lexemes, 1, Fault::ExpectedProgmem));
        }
        if !word_at(lexemes, 2, "string") {
            return Err(reject(lexemes, 2, Fault::ExpectedString));
        }
        let varname = match name_at(lexemes, 3) {
            Some(name) => name,
            None => {
                return Err(reject(lexemes, 3, Fault::ExpectedIdentifier));
            },
        };
        if !punct_at(lexemes, 4, '=') {
            return Err(reject(lexemes, 4, Fault::ExpectedEquals));
        }
        assert(fits_up_to(ls, 5));
        match string_literal_at(lexemes, 5) {
            Some(text) => {
                assert(is_inline(ls));
                assert(fits_up_to(ls, 6));
                if !punct_at(lexemes, 6, ';') {
                    return Err(reject(lexemes, 6, Fault::ExpectedSemicolon));
                }
                assert(fits_up_to(ls, 7));
                if lexemes.len() > 7 {
                    return Err(reject(lexemes, 7, Fault::UnexpectedToken));
                }
                Ok(
                    Arguments {
                        static_at: 0,
                        varname,
                        varname_at: 3,
                        eq_at: 4,
                        source: Source::Text(text),
                        semicolon_at: 6,
                    },
                )
            },
            None => {
                assert(!is_inline(ls));
                let name = match custom_include_str(lexemes, 5) {
                    Ok(name) => name,
                    Err(e) => {
                        proof {
                            let k = e.at - 5;
                            assert forall|i: int| 0 <= i < e.at implies slot_ok(ls, i) by {
                                if i >= 5 {
                                    assert(directive_slot_ok(ls, 5, i - 5));
                                }
                            }
                            if k > 0 {
                                assert(directive_slot_ok(ls, 5, k - 1));
                            } else {
                                assert(slot_ok(ls, 4));
                            }
                            assert(!directive_slot_ok(ls, 5, k));
                            assert(!slot_ok(ls, e.at as int));
                            rejected_is_not_well_formed(ls, e.at as int);
                            divergence_is_unique(ls, e.at as int, divergence(ls));
                        }
                        return Err(e);
                    },
                };
                assert forall|i: int| 0 <= i < 10 implies slot_ok(ls, i) by {
                    if i >= 5 {
                        assert(directive_slot_ok(ls, 5, i - 5));
                    }
                }
                assert(slot_ok(ls, 9));
                if !punct_at(lexemes, 10, ';') {
                    return Err(reject(lexemes, 10, Fault::ExpectedSemicolon));
                }
                assert(fits_up_to(ls, 11));
                if lexemes.len() > 11 {
                    return Err(reject(lexemes, 11, Fault::UnexpectedToken));
                }
                Ok(
                    Arguments {
                        static_at: 0,
                        varname,
                        varname_at: 3,
                        eq_at: 4,
                        source: Source::File(name, 8),
                        semicolon_at: 10,
                    },
                )
            },
        }
    }

    /// Recognises one declaration in `tokens`: reads them, and holds what was
    /// read to the grammar.
    pub fn parse(tokens: &Vec<Token>) -> (r: Result<Arguments, ParseError>)
        ensures
            parse_view(r) == recognized(lexemes_of(tokens.deep_view())),
    {
        Arguments::recognize(&lexemes(tokens))
    }
}

/// What recognising a string literal that stands alone gives: its text;
/// anything but a string literal is rejected at index 0, a token after it at
/// index 1.
pub open spec fn lone_text(ls: Seq<LexemeView>) -> Result<Seq<char>, ParseError> {
    if ls.len() == 0 || text_of(ls[0]) is None {
        Err(ParseError { at: 0, fault: Fault::ExpectedStringLiteral, at_end: ends_at(ls, 0) })
    } else if ls.len() > 1 {
        Err(ParseError { at: 1, fault: Fault::UnexpectedToken, at_end: ends_at(ls, 1) })
    } else {
        Ok(text_of(ls[0])->0)
    }
}

/// The mathematical value of the outcome of recognising a text.
pub open spec fn text_view(r: Result<String, ParseError>) -> Result<Seq<char>, ParseError> {
    match r {
        Ok(text) => Ok(text@),
        Err(e) => Err(e),
    }
}

/// Recognises a string literal that stands alone, and gives its text.
pub fn string_literal_alone(lexemes: &Vec<Lexeme>) -> (r: Result<String, ParseError>)
    ensures
        text_view(r) == lone_text(lexemes.deep_view()),
{
    let text = match string_literal_at(lexemes, 0) {
        Some(text) => text,
        None => {
            return Err(complaint(lexemes, 0, Fault::ExpectedStringLiteral));
        },
    };
    if lexemes.len() > 1 {
        return Err(complaint(lexemes, 1, Fault::UnexpectedToken));
    }
    Ok(text)
}

/// The wording of a fault.
pub open spec fn fault_text(fault: Fault) -> Seq<char> {
    match fault {
        Fault::ExpectedStatic => "expected `static`"@,
        Fault::ExpectedProgmem => "expected `progmem`"@,
        Fault::ExpectedString => "expected `string`"@,
        Fault::ExpectedIdentifier => "expected identifier"@,
        Fault::ExpectedEquals => "expected `=`"@,
        Fault::ExpectedIncludeStr => "expected `include_str`"@,
        Fault::ExpectedBang => "expected `!`"@,
        Fault::ExpectedParentheses => "expected parentheses"@,
        Fault::ExpectedStringLiteral => "expected string literal"@,
        Fault::ExpectedSemicolon => "expected `;`"@,
        Fault::UnexpectedToken => "unexpected token"@,
        Fault::UnreadableFile => "failed to read file"@,
    }
}

/// Whether a fault is worded differently where the tokens run out: a missing
/// word, name, group or literal is, a missing punctuation character is not.
pub open spec fn announces_end(fault: Fault) -> bool {
    match fault {
        Fault::ExpectedStatic
        | Fault::ExpectedProgmem
        | Fault::ExpectedString
        | Fault::ExpectedIdentifier
        | Fault::ExpectedIncludeStr
        | Fault::ExpectedParentheses
        | Fault::ExpectedStringLiteral => true,
        _ => false,
    }
}

/// The diagnostic of an error.
pub open spec fn message_text(e: ParseError) -> Seq<char> {
    if e.at_end && announces_end(e.fault) {
        "unexpected end of input, "@ + fault_text(e.fault)
    } else {
        fault_text(e.fault)
    }
}

impl ParseError {
    /// The diagnostic to show at the offending token.
    pub fn message(&self) -> (text: String)
        ensures
            text@ == message_text(*self),
    {
        let (wording, announces): (&str, bool) = match self.fault {
            Fault::ExpectedStatic => ("expected `static`", true),
            Fault::ExpectedProgmem => ("expected `progmem`", true),
            Fault::ExpectedString => ("expected `string`", true),
            Fault::ExpectedIdentifier => ("expected identifier", true),
            Fault::ExpectedEquals => ("expected `=`", false),
            Fault::ExpectedIncludeStr => ("expected `include_str`", true),
            Fault::ExpectedBang => ("expected `!`", false),
            Fault::ExpectedParentheses => ("expected parentheses", true),
            Fault::ExpectedStringLiteral => ("expected string literal", true),
            Fault::ExpectedSemicolon => ("expected `;`", false),
            Fault::UnexpectedToken => ("unexpected token", false),
            Fault::UnreadableFile => ("failed to read file", false),
        };
        if self.at_end && announces {
            String::from_str("unexpected end of input, ").concat(wording)
        } else {
            String::from_str(wording)
        }
    }
}

} // verus!
