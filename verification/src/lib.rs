//! Expansion of progmem string declarations, on token sequences.
//!
//! A declaration `static progmem string NAME = <source>;` is recognised on a
//! flat sequence of tokens and rewritten into a `static` item that holds the
//! bytes of the source in a `PmString` placed in program memory. A second
//! expansion turns a single string literal into a byte array expression.

pub mod emit;
pub mod grammar;
pub mod laws;
pub mod lexeme;
pub mod literal;
pub mod nesting;
pub mod source;
pub mod token;

use vstd::prelude::*;
use vstd::string::*;
use vstd::utf8::encode_utf8;
use crate::emit::{byte_array, declaration, declare, put_byte_array};
use crate::grammar::{lone_text, recognized, string_literal_alone, Arguments, ParseError};
use crate::lexeme::{lexemes, lexemes_of, LexemeView};
use crate::nesting::{byte_array_nests, well_nested};
use crate::source::{contents_view, payload_of};
use crate::token::{Spanned, SpannedView, Token};

verus! {

/// The mathematical value of the outcome of an expansion.
pub open spec fn expansion_view(r: Result<Vec<Spanned>, ParseError>) -> Result<
    Seq<SpannedView>,
    ParseError,
> {
    match r {
        Ok(out) => Ok(out.deep_view()),
        Err(e) => Err(e),
    }
}

/// What a declaration expands to, given its tokens as read and what was read
/// of the file it may name: the grammar is held to first, then the source is
/// resolved, then the item is written.
pub open spec fn declaration_expansion(ls: Seq<LexemeView>, contents: Option<Seq<u8>>) -> Result<
    Seq<SpannedView>,
    ParseError,
> {
    match recognized(ls) {
        Err(e) => Err(e),
        Ok(args) => match payload_of(args.source, contents) {
            Err(e) => Err(e),
            Ok(bytes) => Ok(declaration(args, bytes)),
        },
    }
}

/// What a string literal that stands alone expands to: the array of the
/// bytes of its text in UTF-8.
pub open spec fn bytes_expansion(ls: Seq<LexemeView>) -> Result<Seq<SpannedView>, ParseError> {
    match lone_text(ls) {
        Err(e) => Err(e),
        Ok(text) => Ok(byte_array(encode_utf8(text))),
    }
}

/// Expands `static progmem string NAME = <source> ;` into the `static` item
/// that holds the bytes of the source as a `PmString` in program memory.
///
/// `contents` is what the named file holds, for a declaration whose source
/// is `include_str!(..)`: `None` if the file could not be read. A declaration
/// with a literal source makes no use of it. [`Arguments::parse`] tells a
/// caller which file a declaration names.
pub fn avr_progmem_str(tokens: &Vec<Token>, contents: Option<Vec<u8>>) -> (r: Result<
    Vec<Spanned>,
    ParseError,
>)
    ensures
        expansion_view(r) == declaration_expansion(
            lexemes_of(tokens.deep_view()),
            contents_view(contents),
        ),
        r matches Ok(out) ==> well_nested(out.deep_view()),
{
    let args = match Arguments::parse(tokens) {
        Ok(args) => args,
        Err(e) => {
            return Err(e);
        },
    };
    let bytes = match args.source.payload(contents) {
        Ok(bytes) => bytes,
        Err(e) => {
            return Err(e);
        },
    };
    Ok(declare(&args, &bytes))
}

/// Expands a single string literal into the array expression of the bytes of
/// its text.
pub fn string_as_bytes(tokens: &Vec<Token>) -> (r: Result<Vec<Spanned>, ParseError>)
    ensures
        expansion_view(r) == bytes_expansion(lexemes_of(tokens.deep_view())),
        r matches Ok(out) ==> well_nested(out.deep_view()),
{
    let text = match string_literal_alone(&lexemes(tokens)) {
        Ok(text) => text,
        Err(e) => {
            return Err(e);
        },
    };
    let bytes = text.as_str().as_bytes_vec();
    let mut out: Vec<Spanned> = Vec::new();
    put_byte_array(&mut out, &bytes);
    proof {
        assert(out.deep_view() =~= byte_array(bytes@));
        byte_array_nests(bytes@, Seq::empty());
    }
    Ok(out)
}

} // verus!
