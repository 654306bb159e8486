//! Literals: the text a string literal denotes, the names a declaration may
//! bind, and the source text of the integer literals an expansion writes.

use vstd::prelude::*;
use vstd::string::*;

verus! {

/// The text denoted by the string literal whose source text is `repr`, as
/// `syn` decodes it (escapes resolved, raw strings taken verbatim, a suffix
/// dropped); `None` where `repr` does not read as one string literal.
pub uninterp spec fn decoded_str_literal(repr: Seq<char>) -> Option<Seq<char>>;

/// Whether `syn` takes the word `text` as an identifier: a word that is
/// neither `_` nor one of the keywords of the language.
pub uninterp spec fn accepted_as_ident(text: Seq<char>) -> bool;

/// Whether source text can begin a string literal: with a quote, or with the
/// `r` of a raw string.
pub open spec fn opens_str_literal(repr: Seq<char>) -> bool {
    repr.len() > 0 && (repr[0] == '"' || repr[0] == 'r')
}

/// The text of the string literal `repr`; `None` for the source text of any
/// other token.
pub open spec fn str_literal_text(repr: Seq<char>) -> Option<Seq<char>> {
    if opens_str_literal(repr) {
        decoded_str_literal(repr)
    } else {
        None
    }
}

/// The character of the decimal digit `d`.
pub open spec fn digit(d: nat) -> char
    recommends
        d < 10,
{
    (48 + d) as u8 as char
}

/// The decimal numeral of `n`, without leading zeros.
pub open spec fn decimal(n: nat) -> Seq<char>
    decreases n,
{
    if n < 10 {
        seq![digit(n)]
    } else {
        decimal(n / 10).push(digit(n % 10))
    }
}

/// The source text of the literal `<n>u8`.
pub open spec fn u8_literal_text(n: u8) -> Seq<char> {
    decimal(n as nat) + seq!['u', '8']
}

/// The source text of the literal `<n>usize`.
pub open spec fn usize_literal_text(n: nat) -> Seq<char> {
    decimal(n) + seq!['u', 's', 'i', 'z', 'e']
}

/// Calls `syn::parse_str::<syn::LitStr>` and then `syn::LitStr::value`: reads
/// `repr` as one string literal and decodes it. Not proved: that the answer is
/// the one named by [`decoded_str_literal`], which is all the contract says.
/// The first character is demanded because `syn` panics on literals of kinds
/// it does not know, and classifies by that character.
#[verifier::external_body]
fn decode_str_literal(repr: &str) -> (text: Option<String>)
    requires
        opens_str_literal(repr@),
    ensures
        text.deep_view() == decoded_str_literal(repr@),
{
    match syn::parse_str::<syn::LitStr>(repr) {
        Ok(literal) => Some(literal.value()),
        Err(_) => None,
    }
}

/// Calls `syn::parse_str::<syn::Ident>`: asks whether `text` reads as one
/// identifier that is not a keyword. Not proved: that the answer is the one
/// named by [`accepted_as_ident`].
#[verifier::external_body]
pub(crate) fn parses_as_ident(text: &str) -> (ok: bool)
    ensures
        ok == accepted_as_ident(text@),
{
    syn::parse_str::<syn::Ident>(text).is_ok()
}

/// Calls `proc_macro2::Literal::u8_suffixed` and prints the literal. Not
/// proved: that the printed text is the decimal numeral of `value` followed
/// by `u8`.
#[verifier::external_body]
pub(crate) fn print_u8_suffixed(value: u8) -> (repr: String)
    ensures
        repr@ == u8_literal_text(value),
{
    proc_macro2::Literal::u8_suffixed(value).to_string()
}

/// Calls `proc_macro2::Literal::usize_suffixed` and prints the literal. Not
/// proved: that the printed text is the decimal numeral of `value` followed
/// by `usize`.
#[verifier::external_body]
pub(crate) fn print_usize_suffixed(value: usize) -> (repr: String)
    ensures
        repr@ == usize_literal_text(value as nat),
{
    proc_macro2::Literal::usize_suffixed(value).to_string()
}

/// The text that the literal with source text `repr` denotes, if it is a
/// string literal.
pub fn str_literal_value(repr: &str) -> (text: Option<String>)
    ensures
        text.deep_view() == str_literal_text(repr@),
{
    if repr.is_empty() {
        return None;
    }
    let first = repr.get_char(0);
    if first == '"' || first == 'r' {
        decode_str_literal(repr)
    } else {
        None
    }
}

} // verus!
